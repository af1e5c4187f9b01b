//! The whole way from a graph region to kernel source, and the search for a tiling.

use vstd::prelude::*;
use vstd::string::*;

use crate::codegen::beam::{
    beam_matvec_candidates, choose_fastest, dense_candidate, fastest, BeamSearchResult,
};
use crate::codegen::error::{msg, CodegenError, ErrorV};
use crate::codegen::lower::kernels::{head_ok, lower_kernel, lowered_in, sched_fits};
use crate::codegen::render::expr::{lits_view, LitV, Literal};
use crate::codegen::render::scan::{block_consts, float_constants};
use crate::codegen::render::kernel::{render_msl, rendered, MetalKernelSource, SourceV};
use crate::codegen::schedule::{
    is_primitive_region, matvec_weight_dtype, no_kernel, no_kernel_error, primitive_region,
    result_view, schedule, scheduled, weight_dtype_of,
};
use crate::ir::dtype::{product_fits, DType, IrError, Scalar, TensorId};
use crate::ir::graph::{Graph, GraphV, Op, OpV};
use crate::ir::kernel::{KernelIr, KernelIrV, OptSchedule};

verus! {

/// Whether a node can be scheduled within machine limits: it reads only earlier nodes, the number
/// of its elements is a machine integer, and the head sizes are ones that kernels are built for.
pub open spec fn region_ok(g: GraphV, out: TensorId) -> bool {
    &&& g.ordered()
    &&& g.has(out) ==> product_fits(g.shape(out))
    &&& match scheduled(g, out) {
        Ok(sk) => head_ok(sk.kind),
        Err(_) => true,
    }
}

/// The kernel of a node under a tiling.
pub open spec fn kernel_of(g: GraphV, out: TensorId, sched: OptSchedule) -> Result<
    KernelIrV,
    ErrorV,
> {
    match scheduled(g, out) {
        Ok(sk) => lowered_in(g, sk, sched),
        Err(e) => Err(e),
    }
}

/// The source of the kernel of a node under a tiling.
pub open spec fn source_of(
    g: GraphV,
    out: TensorId,
    sched: OptSchedule,
    lits: Seq<LitV>,
) -> Result<SourceV, ErrorV> {
    match kernel_of(g, out, sched) {
        Ok(k) => rendered(k, lits),
        Err(e) => Err(e),
    }
}

/// Schedules and lowers a node.
pub fn kernel_ir(graph: &Graph, out: TensorId, sched: OptSchedule) -> (r: Result<
    KernelIr,
    CodegenError,
>)
    requires
        region_ok(graph@, out),
        sched_fits(sched),
    ensures
        result_view(r) == kernel_of(graph@, out, sched),
{
    let kernels = schedule(graph, out)?;
    lower_kernel(graph, &kernels[0], sched)
}

/// Schedules, lowers and renders a node under a given tiling.
pub fn lower_with_schedule(
    graph: &Graph,
    out: TensorId,
    sched: OptSchedule,
    lits: &Vec<Literal>,
) -> (r: Result<MetalKernelSource, CodegenError>)
    requires
        region_ok(graph@, out),
        sched_fits(sched),
    ensures
        result_view(r) == source_of(graph@, out, sched, lits_view(lits@)),
{
    let kir = kernel_ir(graph, out, sched)?;
    render_msl(&kir, lits)
}

/// The matrix of a matrix-vector product of primitive operations.
pub open spec fn matrix_of(g: GraphV, out: TensorId) -> Option<TensorId> {
    if !g.has(out) {
        None
    } else {
        match g.at(out).op {
            OpV::SumReduce { inp, .. } => if !g.has(inp) {
                None
            } else {
                match g.at(inp).op {
                    OpV::MulBroadcastRow { left, .. } => Some(left),
                    _ => None,
                }
            },
            _ => None,
        }
    }
}

/// Whether the matrix of a product, if the node is one, has rows and columns.
pub open spec fn matrix_ranked(g: GraphV, out: TensorId) -> bool {
    match matrix_of(g, out) {
        Some(m) => g.has(m) ==> g.shape(m).len() >= 2,
        None => true,
    }
}

/// The dimensions by which the tiling of a node is kept: rows and columns of a product, else the
/// number of the node.
pub open spec fn dims_of(g: GraphV, out: TensorId) -> Result<Seq<usize>, ErrorV> {
    let bad = Err(ErrorV::Ir(IrError::BadTensorId));
    if !g.has(out) {
        bad
    } else {
        match g.at(out).op {
            OpV::SumReduce { inp, .. } => if !g.has(inp) {
                bad
            } else {
                match g.at(inp).op {
                    OpV::MulBroadcastRow { left, .. } => if !g.has(left) {
                        bad
                    } else {
                        Ok(seq![g.shape(left)[0], g.shape(left)[1]])
                    },
                    _ => Ok(seq![out.0 as usize]),
                }
            },
            _ => Ok(seq![out.0 as usize]),
        }
    }
}

fn one_dim(n: usize) -> (r: Vec<usize>)
    ensures
        r@ == seq![n],
{
    let mut v: Vec<usize> = Vec::new();
    v.push(n);
    assert(v@ =~= seq![n]);
    v
}

/// The dimensions by which the tiling of a node is kept.
pub fn matvec_dims(graph: &Graph, out: TensorId) -> (r: Result<Vec<usize>, CodegenError>)
    requires
        matrix_ranked(graph@, out),
    ensures
        result_view(r) == dims_of(graph@, out),
{
    let node = match graph.node(out) {
        Ok(n) => n,
        Err(e) => {
            return Err(CodegenError::Ir(e));
        },
    };
    let inp = match &node.op {
        Op::SumReduce { inp, .. } => *inp,
        _ => {
            return Ok(one_dim(out.0 as usize));
        },
    };
    let inner = match graph.node(inp) {
        Ok(n) => n,
        Err(e) => {
            return Err(CodegenError::Ir(e));
        },
    };
    let left = match &inner.op {
        Op::MulBroadcastRow { left, .. } => *left,
        _ => {
            return Ok(one_dim(out.0 as usize));
        },
    };
    match graph.shape_dtype(left) {
        Ok((shape, _)) => {
            let mut v: Vec<usize> = Vec::new();
            v.push(shape.0[0]);
            v.push(shape.0[1]);
            assert(v@ =~= seq![shape@[0], shape@[1]]);
            Ok(v)
        },
        Err(e) => Err(CodegenError::Ir(e)),
    }
}

/// Under what the tiling of a node is looked up: a kind of kernel and its dimensions; nothing for
/// a node that is no product.
pub open spec fn lookup_of(g: GraphV, out: TensorId) -> Result<
    Option<(Seq<char>, Seq<usize>)>,
    ErrorV,
> {
    match weight_dtype_of(g, out) {
        Err(e) => Err(e),
        Ok(None) => Ok(None),
        Ok(Some(d)) => match dims_of(g, out) {
            Err(e) => Err(e),
            Ok(dims) => Ok(
                Some(
                    (
                        if d == DType::Q4K {
                            "matvec_q4k"@
                        } else {
                            "matvec_f32"@
                        },
                        dims,
                    ),
                ),
            ),
        },
    }
}

/// Under what the tiling of a node is looked up.
pub fn plan_lookup(graph: &Graph, out: TensorId) -> (r: Result<
    Option<(&'static str, Vec<usize>)>,
    CodegenError,
>)
    requires
        matrix_ranked(graph@, out),
    ensures
        match r {
            Err(e) => lookup_of(graph@, out) == Err::<Option<(Seq<char>, Seq<usize>)>, ErrorV>(e@),
            Ok(None) => lookup_of(graph@, out) == Ok::<
                Option<(Seq<char>, Seq<usize>)>,
                ErrorV,
            >(None),
            Ok(Some((kind, dims))) => lookup_of(graph@, out) == Ok::<
                Option<(Seq<char>, Seq<usize>)>,
                ErrorV,
            >(Some((kind@, dims@))),
        },
{
    match matvec_weight_dtype(graph, out)? {
        None => Ok(None),
        Some(d) => {
            let dims = matvec_dims(graph, out)?;
            let kind = match d {
                DType::Q4K => "matvec_q4k",
                _ => "matvec_f32",
            };
            Ok(Some((kind, dims)))
        },
    }
}

/// The tiling of a node: the kept one for a product, else the default for its weights.
pub open spec fn tiling_of(weight: Option<DType>, plan: Option<OptSchedule>) -> OptSchedule {
    let dense = OptSchedule { tg: 32, vec: 4, unroll: 1, nsg: 2, nr0: 4 };
    match (weight, plan) {
        (None, _) => dense,
        (Some(_), Some(p)) => p,
        (Some(DType::Q4K), None) => OptSchedule { tg: 32, vec: 1, unroll: 1, nsg: 2, nr0: 16 },
        (Some(_), None) => dense,
    }
}

fn pick_tiling(weight: Option<DType>, plan: Option<OptSchedule>) -> (r: OptSchedule)
    ensures
        r == tiling_of(weight, plan),
{
    match (weight, plan) {
        (None, _) => OptSchedule::default(),
        (Some(_), Some(p)) => p,
        (Some(DType::Q4K), None) => OptSchedule::q4k_default(),
        (Some(_), None) => OptSchedule::default(),
    }
}

/// The source of the kernel of a node: under the kept tiling if there is one.
pub open spec fn metal_of(
    g: GraphV,
    out: TensorId,
    plan: Option<OptSchedule>,
    lits: Seq<LitV>,
) -> Result<SourceV, ErrorV> {
    match primitive_region(g, out) {
        Err(e) => Err(e),
        Ok(false) => Err(
            no_kernel("lower_to_metal: not a primitive region"@, g.at(out).op),
        ),
        Ok(true) => match lookup_of(g, out) {
            Err(e) => Err(e),
            Ok(_) => source_of(
                g,
                out,
                tiling_of(weight_dtype_of(g, out)->Ok_0, plan),
                lits,
            ),
        },
    }
}

/// Schedules, lowers and renders a node. `plan` is the tiling kept under [`plan_lookup`].
pub fn lower_to_metal(
    graph: &Graph,
    out: TensorId,
    plan: Option<OptSchedule>,
    lits: &Vec<Literal>,
) -> (r: Result<MetalKernelSource, CodegenError>)
    requires
        region_ok(graph@, out),
        matrix_ranked(graph@, out),
        plan matches Some(p) ==> sched_fits(p),
    ensures
        result_view(r) == metal_of(graph@, out, plan, lits_view(lits@)),
{
    if !is_primitive_region(graph, out)? {
        match graph.node(out) {
            Ok(node) => {
                return Err(
                    no_kernel_error("lower_to_metal: not a primitive region", &node.op),
                );
            },
            Err(e) => {
                return Err(CodegenError::Ir(e));
            },
        }
    }
    let weight = matvec_weight_dtype(graph, out)?;
    if weight.is_some() {
        let _ = matvec_dims(graph, out)?;
    }
    lower_with_schedule(graph, out, pick_tiling(weight, plan), lits)
}

/// The floating-point constants in the kernel of a node, under the kept tiling if there is one.
pub open spec fn constants_of(g: GraphV, out: TensorId, plan: Option<OptSchedule>) -> Result<
    Seq<Scalar>,
    ErrorV,
> {
    match weight_dtype_of(g, out) {
        Err(e) => Err(e),
        Ok(w) => match kernel_of(g, out, tiling_of(w, plan)) {
            Ok(k) => Ok(block_consts(k.body, Seq::empty())),
            Err(e) => Err(e),
        },
    }
}

/// The floating-point constants in the kernel of a node, for which its source needs literals.
pub fn region_constants(graph: &Graph, out: TensorId, plan: Option<OptSchedule>) -> (r: Result<
    Vec<Scalar>,
    CodegenError,
>)
    requires
        region_ok(graph@, out),
        plan matches Some(p) ==> sched_fits(p),
    ensures
        result_view(r) == constants_of(graph@, out, plan),
{
    let weight = matvec_weight_dtype(graph, out)?;
    let kir = kernel_ir(graph, out, pick_tiling(weight, plan))?;
    Ok(float_constants(&kir.body))
}

/// The rows and columns of the product that a search is for.
pub open spec fn search_dims(g: GraphV, out: TensorId) -> Result<(usize, usize), ErrorV> {
    let bad = Err(ErrorV::Ir(IrError::BadTensorId));
    let other = Err(ErrorV::Msg("beam_search_matvec: not matvec"@));
    if !g.has(out) {
        bad
    } else {
        match g.at(out).op {
            OpV::SumReduce { inp, .. } => if !g.has(inp) {
                bad
            } else {
                match g.at(inp).op {
                    OpV::MulBroadcastRow { left, .. } => if !g.has(left) {
                        bad
                    } else {
                        Ok((g.shape(left)[0], g.shape(left)[1]))
                    },
                    _ => other,
                }
            },
            _ => other,
        }
    }
}

/// The rows and columns of the product that a search is for.
pub fn matvec_shape(graph: &Graph, out: TensorId) -> (r: Result<(usize, usize), CodegenError>)
    requires
        matrix_ranked(graph@, out),
    ensures
        crate::codegen::schedule::err_view(r) == search_dims(graph@, out),
{
    let node = match graph.node(out) {
        Ok(n) => n,
        Err(e) => {
            return Err(CodegenError::Ir(e));
        },
    };
    let inp = match &node.op {
        Op::SumReduce { inp, .. } => *inp,
        _ => {
            return Err(msg("beam_search_matvec: not matvec"));
        },
    };
    let inner = match graph.node(inp) {
        Ok(n) => n,
        Err(e) => {
            return Err(CodegenError::Ir(e));
        },
    };
    let left = match &inner.op {
        Op::MulBroadcastRow { left, .. } => *left,
        _ => {
            return Err(msg("beam_search_matvec: not matvec"));
        },
    };
    match graph.shape_dtype(left) {
        Ok((shape, _)) => Ok((shape.0[0], shape.0[1])),
        Err(e) => Err(CodegenError::Ir(e)),
    }
}

/// A tiling to time, with the kernel it gives.
#[derive(Debug)]
pub struct Trial {
    pub schedule: OptSchedule,
    pub kernel: MetalKernelSource,
}

/// The tilings that a search times: the kept one alone, or every candidate.
pub open spec fn tilings(cached: Option<OptSchedule>) -> Seq<OptSchedule> {
    match cached {
        Some(s) => seq![s],
        None => Seq::new(27, |i: int| dense_candidate(i)),
    }
}

/// The tiling that a search starts from and whose kernel must render: the kept one, or the
/// untuned one.
pub open spec fn first_tiling(cached: Option<OptSchedule>) -> OptSchedule {
    match cached {
        Some(s) => s,
        None => OptSchedule { tg: 32, vec: 1, unroll: 1, nsg: 2, nr0: 4 },
    }
}

/// The first error among the kernels of the first `k` tilings.
pub open spec fn first_error(
    g: GraphV,
    out: TensorId,
    list: Seq<OptSchedule>,
    lits: Seq<LitV>,
    k: nat,
) -> Option<ErrorV>
    decreases k,
{
    if k == 0 {
        None
    } else {
        match first_error(g, out, list, lits, (k - 1) as nat) {
            Some(e) => Some(e),
            None => match source_of(g, out, list[k - 1], lits) {
                Err(e) => Some(e),
                Ok(_) => None,
            },
        }
    }
}

/// Whether `trials` are the kernels of the tilings in `list`.
pub open spec fn are_trials(
    trials: Seq<Trial>,
    g: GraphV,
    out: TensorId,
    list: Seq<OptSchedule>,
    lits: Seq<LitV>,
) -> bool {
    &&& trials.len() == list.len()
    &&& forall|i: int|
        0 <= i < trials.len() ==> (#[trigger] trials[i]).schedule == list[i] && source_of(
            g,
            out,
            list[i],
            lits,
        ) == Ok::<SourceV, ErrorV>(trials[i].kernel@)
}

/// Sets up the search for the tiling of a matrix-vector product: the kernels to time, in order,
/// and the one that stands where none is timed faster than forever. `cached` is the tiling kept
/// under the key of the product; if there is one, it alone is timed.
pub fn beam_search_matvec(
    graph: &Graph,
    out: TensorId,
    cached: Option<OptSchedule>,
    lits: &Vec<Literal>,
) -> (r: Result<(Trial, Vec<Trial>), CodegenError>)
    requires
        region_ok(graph@, out),
        matrix_ranked(graph@, out),
        cached matches Some(s) ==> sched_fits(s),
    ensures
        match r {
            Err(e) => {
                ||| search_dims(graph@, out) == Err::<(usize, usize), ErrorV>(e@)
                ||| search_dims(graph@, out) is Ok && source_of(
                    graph@,
                    out,
                    first_tiling(cached),
                    lits_view(lits@),
                ) == Err::<SourceV, ErrorV>(e@)
                ||| search_dims(graph@, out) is Ok && source_of(
                    graph@,
                    out,
                    first_tiling(cached),
                    lits_view(lits@),
                ) is Ok && first_error(
                    graph@,
                    out,
                    tilings(cached),
                    lits_view(lits@),
                    tilings(cached).len(),
                ) == Some(e@)
            },
            Ok((base, trials)) => {
                &&& search_dims(graph@, out) is Ok
                &&& base.schedule == first_tiling(cached)
                &&& source_of(graph@, out, first_tiling(cached), lits_view(lits@)) == Ok::<
                    SourceV,
                    ErrorV,
                >(base.kernel@)
                &&& are_trials(trials@, graph@, out, tilings(cached), lits_view(lits@))
            },
        },
{
    let _ = matvec_shape(graph, out)?;
    let (start, list) = match cached {
        Some(s) => {
            let mut v: Vec<OptSchedule> = Vec::new();
            v.push(s);
            assert(v@ =~= seq![s]);
            (s, v)
        },
        None => (OptSchedule::untuned(), beam_matvec_candidates()),
    };
    let base = Trial { schedule: start, kernel: lower_with_schedule(graph, out, start, lits)? };
    let ghost lv = lits_view(lits@);
    let mut trials: Vec<Trial> = Vec::new();
    let mut i: usize = 0;
    proof {
        assert forall|k: int| 0 <= k < list@.len() implies sched_fits(#[trigger] list@[k]) by {
            if cached is None {
                assert(list@[k] == dense_candidate(k));
            }
        }
    }
    while i < list.len()
        invariant
            i <= list@.len(),
            region_ok(graph@, out),
            search_dims(graph@, out) is Ok,
            lv == lits_view(lits@),
            list@ == tilings(cached),
            start == first_tiling(cached),
            source_of(graph@, out, start, lv) is Ok,
            forall|k: int| 0 <= k < list@.len() ==> sched_fits(#[trigger] list@[k]),
            trials@.len() == i,
            forall|k: int|
                0 <= k < i ==> (#[trigger] trials@[k]).schedule == list@[k] && source_of(
                    graph@,
                    out,
                    list@[k],
                    lv,
                ) == Ok::<SourceV, ErrorV>(trials@[k].kernel@),
            first_error(graph@, out, list@, lv, i as nat) is None,
        decreases list@.len() - i,
    {
        let s = list[i];
        match lower_with_schedule(graph, out, s, lits) {
            Err(e) => {
                proof {
                    lemma_first_error(graph@, out, list@, lv, (i + 1) as nat, list@.len());
                }
                return Err(e);
            },
            Ok(kernel) => {
                trials.push(Trial { schedule: s, kernel });
            },
        }
        i += 1;
    }
    Ok((base, trials))
}

proof fn lemma_first_error(
    g: GraphV,
    out: TensorId,
    list: Seq<OptSchedule>,
    lits: Seq<LitV>,
    k: nat,
    n: nat,
)
    requires
        k <= n,
        first_error(g, out, list, lits, k) is Some,
    ensures
        first_error(g, out, list, lits, n) == first_error(g, out, list, lits, k),
    decreases n - k,
{
    if k < n {
        lemma_first_error(g, out, list, lits, k, (n - 1) as nat);
    }
}

/// Ends a search: of the timed kernels the fastest, and of equally fast ones the first; the base
/// where every one took forever.
pub fn finish_search(base: Trial, mut trials: Vec<Trial>, times: &Vec<u64>, from_cache: bool) -> (r:
    BeamSearchResult)
    requires
        trials@.len() == times@.len(),
    ensures
        r.from_cache == from_cache,
        if r.ms == u64::MAX {
            &&& r.schedule == base.schedule
            &&& r.kernel == base.kernel
            &&& forall|j: int| 0 <= j < times@.len() ==> times@[j] == u64::MAX
        } else {
            exists|k: int|
                {
                    &&& #[trigger] fastest(times@, k)
                    &&& r.ms == times@[k]
                    &&& r.schedule == trials@[k].schedule
                    &&& r.kernel == trials@[k].kernel
                }
        },
{
    match choose_fastest(times) {
        None => BeamSearchResult {
            schedule: base.schedule,
            ms: u64::MAX,
            from_cache,
            kernel: base.kernel,
        },
        Some(k) => {
            let ghost all = trials@;
            let best = trials.swap_remove(k);
            assert(best == all[k as int]);
            BeamSearchResult {
                schedule: best.schedule,
                ms: times[k],
                from_cache,
                kernel: best.kernel,
            }
        },
    }
}

} // verus!
