use std::collections::hash_map::DefaultHasher;
use std::hash::{Hash, Hasher};

use ksearch::cli::{elem_add, expand_home, hi_gate, matvec, parse_tokens};
use ksearch::codegen::beam::{
    beam_cache_dir, beam_cache_key, beam_matvec_candidates, beam_matvec_q4k_candidates,
    beam_tg_candidates, choose_fastest, load_beam_cache, save_beam_cache, BeamCacheEntry,
};
use ksearch::codegen::layer::{
    render_copy_slice, render_gelu_mul, render_rmsnorm, render_rmsnorm_add,
    render_rmsnorm_add_scale, render_rmsnorm_per_head, render_rope, render_softcap_argmax,
};
use ksearch::codegen::pipeline::{
    beam_search_matvec, finish_search, lower_to_metal, lower_with_schedule, matvec_dims,
    plan_lookup, region_constants,
};
use ksearch::codegen::plan_cache::{load_plan, plan_cache_dir, plan_key, save_plan};
use ksearch::codegen::render::expr::Literal;
use ksearch::codegen::render::kernel::LaunchHint;
use ksearch::codegen::schedule::{rewrite_region, schedule, validate_q4_matvec_pattern};
use ksearch::decimal::reads_as_number;
use ksearch::ir::dtype::{
    matrix_shape, q40_nbytes, q40_row_bytes, q4k_nbytes, q5k_nbytes, q6k_nbytes, vector_shape,
    DType, IrError, Scalar, Shape, TensorId,
};
use ksearch::ir::graph::Graph;
use ksearch::ir::kernel::OptSchedule;
use ksearch::kernels::call::{Call, Eng, Work};
use ksearch::kernels::buffer::{layer_tensor, Buf, LayerWeight};
use ksearch::kernels::kernel::Kernel;
use ksearch::kernels::launch::{check_counts, launch_grid, tg_for};
use ksearch::kernels::warm::{median, plan_kind, warm_bytes};

fn lits(consts: Vec<Scalar>) -> Vec<Literal> {
    consts
        .into_iter()
        .map(|value| {
            let x: f32 = match value {
                Scalar::Bits(b) => f32::from_bits(b),
                Scalar::Int(n) => n as f32,
                Scalar::RecipInt(n) => 1.0 / n as f32,
                Scalar::RecipBits(b) => 1.0 / f32::from_bits(b),
            };
            Literal { value, text: format!("{x:?}") }
        })
        .collect()
}

fn source(k: &Kernel) -> String {
    let c = match k.constants(None) {
        Ok(c) => c,
        Err(e) => panic!("{}: {}", k.key(), e.message()),
    };
    match k.source(None, &lits(c)) {
        Ok(s) => s.source,
        Err(e) => panic!("{}: {}", k.key(), e.message()),
    }
}

const EPS: u32 = 0x358637BD;

#[test]
fn sum_of_two_vectors() {
    let (g, out) = elem_add(8);
    let s = lower_to_metal(&g, out.unwrap(), None, &vec![]).unwrap();
    assert_eq!(s.name, "k_elem_2");
    assert_eq!(
        s.source,
        "#include <metal_stdlib>\nusing namespace metal;\n\nkernel void k_elem_2(\n  device const float* in0 [[buffer(0)]],\n  device const float* in1 [[buffer(1)]],\n  device float* out [[buffer(2)]],\n  uint gid [[thread_position_in_grid]]\n) {\n  if (gid >= 8u) return;\n  out[gid] = (in0[gid] + in1[gid]);\n}\n"
    );
    assert!(matches!(s.launch, LaunchHint::Elementwise { n: 8 }));
    assert_eq!(s.n_inputs, 2);
    assert_eq!(s.n_outputs, 1);
}

#[test]
fn copy_of_a_slice() {
    let s = render_copy_slice(3, 5, 7, &vec![]).unwrap();
    assert_eq!(s.name, "k_copy_slice_7_3_5");
    assert!(s.source.contains("  out[(5u + gid)] = in0[(3u + gid)];\n"));
}

#[test]
fn scaled_sum_in_half_precision() {
    let k = Kernel::AddScale { n: 16, scale: 0x3F3504F3 };
    assert_eq!(k.key(), "add_sc_f16_16_1060439283");
    assert!(source(&k)
        .contains("  out[gid] = half((0.70710677f * (float(in0[gid]) + float(in1[gid]))));\n"));
}

#[test]
fn rotation_of_heads() {
    let text = source(&Kernel::Rope { n_heads: 2, hd: 64 });
    assert!(text.contains("  for (uint f1 = 0u; f1 < 32u; f1++) {\n"));
    assert!(text.contains("= half(((v2 * v4) - (v3 * v5)));\n"));
    assert!(text.contains("= half(((v2 * v5) + (v3 * v4)));\n"));
    let s = render_rope(2, 64, &vec![]).unwrap();
    assert_eq!(s.name, "k_rope_2_64");
}

#[test]
fn norm_of_a_vector() {
    let text = source(&Kernel::RmsNorm { n: 64, eps: EPS });
    assert!(text.contains("  float v2 = rsqrt(((v0 / 64.0f) + 1e-6f));\n"));
    assert!(text.contains("    out[u3] = half(((float(in0[u3]) * v2) * float(in1[u3])));\n"));
}

#[test]
fn layer_kernels_have_their_names() {
    let eps = Scalar::Bits(EPS);
    let one = Scalar::Bits(0x3F800000);
    let table = lits(vec![
        eps,
        one,
        Scalar::Bits(0),
        Scalar::Int(64),
        Scalar::Int(8),
        Scalar::RecipInt(64),
        Scalar::RecipInt(8),
    ]);
    let names: Vec<String> = vec![
        render_rmsnorm(64, eps, &table),
        render_rmsnorm_add(64, eps, &table),
        render_rmsnorm_add_scale(64, eps, one, &table),
        render_rmsnorm_per_head(8, 8, eps, true, &table),
        render_rmsnorm_per_head(8, 8, eps, false, &table),
    ]
    .into_iter()
    .map(|r| r.map(|s| s.name).unwrap_or_else(|e| e.message()))
    .collect();
    assert_eq!(
        names,
        vec!["k_rmsnorm_64", "k_rms_add_64", "k_rms_add_sc_64", "k_rms_ph_8_8_1", "k_rms_ph_8_8_0"]
    );
}

#[test]
fn constants_need_literals() {
    let e = render_gelu_mul(4, 2, &vec![]).map(|s| s.name).unwrap_err();
    assert_eq!(e.message(), "render: no text for a constant");
    assert!(render_softcap_argmax(9, Scalar::Bits(0x41F00000), &vec![]).is_err());
}

#[test]
fn every_kernel_with_a_body_renders() {
    let kernels = vec![
        Kernel::Matvec { rows: 64, cols: 512, weight: DType::F16 },
        Kernel::Matvec { rows: 64, cols: 512, weight: DType::Q4K },
        Kernel::Matvec { rows: 64, cols: 512, weight: DType::Q6K },
        Kernel::MatvecQkv {
            q_rows: 64,
            kv_rows: 32,
            cols: 512,
            wq: DType::Q4K,
            wk: DType::Q4K,
            wv: DType::Q6K,
        },
        Kernel::RmsNormMatvec { rows: 64, cols: 512, eps: EPS, weight: DType::F16 },
        Kernel::RmsNormMatvecQkv {
            q_rows: 64,
            kv_rows: 32,
            cols: 512,
            eps: EPS,
            wq: DType::F16,
            wk: DType::F16,
            wv: DType::F16,
        },
        Kernel::RmsNormAdd { n: 64, eps: EPS },
        Kernel::RmsNormAddScale { n: 64, eps: EPS, scale: 0x40000000 },
        Kernel::RmsNormAddThenRmsNorm { n: 64, eps: EPS },
        Kernel::RmsNormPerHead { n_heads: 4, hd: 64, eps: EPS },
        Kernel::RmsNormPerHeadRope { n_heads: 4, hd: 64, eps: EPS },
        Kernel::RmsNormNoWeight { n_heads: 4, hd: 64, eps: EPS },
        Kernel::Add { n: 64 },
        Kernel::GeluMul { n: 64, up_off: 64 },
        Kernel::MatvecGeluMul { rows: 64, cols: 512, weight: DType::Q4K },
        Kernel::GateUpGelu { rows: 64, cols: 512, weight: DType::Q4K },
        Kernel::RmsNormGateUpGelu { rows: 64, cols: 512, eps: EPS, weight: DType::F16 },
        Kernel::ScaleConst { n: 64, scale: 0x40000000 },
        Kernel::Sdpa { n_q: 4, hd: 64, max_t: 128, kv: DType::Q40 },
        Kernel::Sdpa { n_q: 4, hd: 64, max_t: 128, kv: DType::F16 },
        Kernel::QuantizeQ40 { n: 64 },
        Kernel::RmsNormPerHeadRopeQ40 { n_heads: 2, hd: 64, eps: EPS },
        Kernel::RmsNormPerHeadQ40 { n_heads: 2, hd: 64, eps: EPS },
        Kernel::CopySlice { n: 8, src_off: 1, dst_off: 2 },
        Kernel::CopyScale { n: 256, scale: 0x40000000, dtype: DType::Q4K },
        Kernel::SoftcapArgmax { n: 1000, cap: 0x41F00000 },
    ];
    for k in &kernels {
        assert!(k.check());
        let text = source(k);
        assert!(text.contains("kernel void k_"), "{}", k.key());
        assert!(text.ends_with("}\n"));
    }
}

/// Whether a text is without a comma before a closing bracket and closes every bracket it opens.
fn well_formed(text: &str) -> bool {
    let mut open = Vec::new();
    let mut before = ' ';
    for c in text.lines().flat_map(|l| l.split("//").next().unwrap_or("").chars()) {
        match c {
            '(' => open.push(')'),
            '[' => open.push(']'),
            '{' => open.push('}'),
            ')' | ']' | '}' => {
                if before == ',' || open.pop() != Some(c) {
                    return false;
                }
            }
            _ => {}
        }
        if !c.is_whitespace() {
            before = c;
        }
    }
    open.is_empty()
}

#[test]
fn packed_weights_bring_their_helpers() {
    let text = source(&Kernel::Matvec { rows: 64, cols: 512, weight: DType::Q4K });
    let headers = [
        "inline void ksearch_get_scale_min_k4(uint j, device const uchar* q, thread uchar& d, thread uchar& m) {\n",
        "inline float ksearch_q4k_at(device const uchar* blk, float d, float dmin, uint j) {\n",
        "inline float ksearch_dot_q4k32(device const uchar* A, uint widx, threadgroup const float* x, uint xidx) {\n",
        "inline float ksearch_dot_q4k256(device const uchar* A, uint widx, threadgroup const float* x, uint xidx) {\n",
        "inline float ksearch_dot_q4k32_dev(device const uchar* A, uint widx, device const half* x, uint xidx) {\n",
        "inline void ksearch_q4k_load_y_dev(device const half* y4, thread float* yl, thread float* yh, thread float4* sumy) {\n",
    ];
    for h in headers {
        assert!(text.contains(h), "{h}");
    }
    assert!(text.contains(
        "  else { d = (q[j + 4u] & 0x0Fu) | ((q[j - 4u] >> 6u) << 4u); m = (q[j + 4u] >> 4u) | ((q[j] >> 6u) << 4u); }\n"
    ));
    let packed = [
        Kernel::Matvec { rows: 64, cols: 512, weight: DType::Q4K },
        Kernel::Matvec { rows: 64, cols: 512, weight: DType::Q6K },
        Kernel::GateUpGelu { rows: 64, cols: 512, weight: DType::Q4K },
        Kernel::Sdpa { n_q: 4, hd: 64, max_t: 128, kv: DType::Q40 },
        Kernel::QuantizeQ40 { n: 64 },
    ];
    for k in &packed {
        assert!(source(k).contains("inline "), "{}", k.key());
        assert!(well_formed(&source(k)), "{}", k.key());
    }
    assert!(!well_formed("void f(\n  uint a,\n) {}"));
}

#[test]
fn kernels_without_a_body_are_refused() {
    let k = Kernel::SdpaMwgReduce { n_q: 4, hd: 64, nwg: 16 };
    assert_eq!(k.constants(None).unwrap_err().message(), "lower: no body for this kernel kind");
}

#[test]
fn packed_columns_come_in_whole_blocks() {
    let k = Kernel::Matvec { rows: 64, cols: 500, weight: DType::Q4K };
    assert_eq!(k.source(None, &vec![]).map(|s| s.name).unwrap_err().message(), "shape / dtype mismatch");
}

#[test]
fn operations_without_a_kernel_are_named() {
    let mut g = Graph::new();
    let w = g.input(matrix_shape(4, 5), DType::F32);
    let x = g.input(Shape(vec![5]), DType::F32);
    let y = g.input(Shape(vec![256, 2, 1]), DType::Q4K);
    let ops = [
        (w, "Input { shape: Shape([4, 5]), dtype: F32 }"),
        (y, "Input { shape: Shape([256, 2, 1]), dtype: Q4K }"),
        (g.rsqrt(w).unwrap(), "Rsqrt { x: TensorId(0) }"),
        (g.tanh(w).unwrap(), "Tanh { x: TensorId(0) }"),
        (g.exp(x).unwrap(), "Exp { x: TensorId(1) }"),
        (g.max_reduce(w, 1).unwrap(), "MaxReduce { inp: TensorId(0), axis: 1 }"),
        (
            g.mul_broadcast_row(w, x).unwrap(),
            "MulBroadcastRow { left: TensorId(0), row: TensorId(1) }",
        ),
    ];
    for (out, shown) in ops {
        let e = schedule(&g, out).map(|v| v.len()).unwrap_err();
        let want = format!("schedule: not a Thesis A primitive region ({shown})");
        assert_eq!(e.message(), want);
    }
}

#[test]
fn an_input_is_no_region() {
    let mut g = Graph::new();
    let a = g.input(matrix_shape(4, 5), DType::F32);
    let e = lower_to_metal(&g, a, None, &vec![]).map(|s| s.name).unwrap_err();
    assert_eq!(
        e.message(),
        "lower_to_metal: not a primitive region (Input { shape: Shape([4, 5]), dtype: F32 })"
    );
    let e = lower_to_metal(&g, TensorId(9), None, &vec![]).map(|s| s.name).unwrap_err();
    assert_eq!(e.message(), "bad tensor id");
}

#[test]
fn graph_operations_check_their_operands() {
    let mut g = Graph::new();
    let a = g.input(vector_shape(4), DType::F32);
    let b = g.input(vector_shape(5), DType::F32);
    let m = g.input(matrix_shape(3, 4), DType::F32);
    assert_eq!(g.add(a, b), Err(IrError::ShapeMismatch));
    assert_eq!(g.sum_reduce(m, 2), Err(IrError::BadAxis));
    assert_eq!(g.add(a, TensorId(77)), Err(IrError::BadTensorId));
    let y = g.matvec_prim(m, a).unwrap();
    assert_eq!(g.shape_dtype(y).unwrap().0 .0, vec![3]);
    assert_eq!(IrError::BadAxis.message(), "bad reduce axis");
}

#[test]
fn building_keeps_the_nodes_that_are_there() {
    let mut g = Graph::new();
    let x = g.input(vector_shape(8), DType::F32);
    let w = g.input(vector_shape(8), DType::F32);
    let n = g.nodes.len();
    let y = g.rmsnorm_expand(x, w, Scalar::Bits(EPS)).unwrap();
    assert_eq!(n, 2);
    assert_eq!(y, TensorId(10));
    assert_eq!(g.nodes.len(), 11);
    assert_eq!(g.node(x).unwrap().shape.0, vec![8]);
}

#[test]
fn one_kernel_per_region() {
    let (g, out) = matvec(4, 8);
    let list = schedule(&g, out.unwrap()).unwrap();
    assert_eq!(list.len(), 1);
    assert_eq!(list[0].inputs.len(), 2);
}

#[test]
fn sizes_of_packed_rows() {
    assert_eq!(q40_row_bytes(256), 144);
    assert_eq!(q40_nbytes(3, 64), 108);
    assert_eq!(q4k_nbytes(512), 288);
    assert_eq!(q5k_nbytes(512), 352);
    assert_eq!(q6k_nbytes(512), 420);
    assert_eq!(Shape(vec![2, 3, 4]).numel(), 24);
    assert_eq!(Shape(vec![2, 3, 4]).rank(), 3);
    assert_eq!(DType::Q4K.size_bytes(), 0);
    assert_eq!(DType::BF16.msl(), "bfloat");
}

#[test]
fn candidates_of_the_search() {
    let c = beam_matvec_candidates();
    assert_eq!(c.len(), 27);
    assert_eq!(c[0], OptSchedule { tg: 32, vec: 1, unroll: 1, nsg: 2, nr0: 4 });
    assert_eq!(c[5], OptSchedule { tg: 32, vec: 2, unroll: 4, nsg: 2, nr0: 4 });
    assert_eq!(c[26], OptSchedule { tg: 128, vec: 4, unroll: 4, nsg: 2, nr0: 4 });
    let q = beam_matvec_q4k_candidates();
    assert_eq!(q.len(), 9);
    assert_eq!(q[5], OptSchedule { tg: 64, vec: 1, unroll: 1, nsg: 2, nr0: 8 });
    assert_eq!(beam_tg_candidates(4096), vec![32, 64, 128]);
}

#[test]
fn keys_hash_as_the_standard_hasher_does() {
    let mut h = DefaultHasher::new();
    "matvec".hash(&mut h);
    4096usize.hash(&mut h);
    1536usize.hash(&mut h);
    "Apple M3".hash(&mut h);
    let want = format!("matvec_4096x1536_{:016x}", h.finish());
    assert_eq!(beam_cache_key("matvec", 4096, 1536, "Apple M3"), want);
    assert_eq!(plan_key("matvec", &vec![4096, 1536], "Apple M3"), want);
    let mut h = DefaultHasher::new();
    "sdpa".hash(&mut h);
    "x".hash(&mut h);
    assert_eq!(plan_key("sdpa", &vec![], "x"), format!("sdpa__{:016x}", h.finish()));
}

#[test]
fn a_kept_tiling_reads_back() {
    let s = OptSchedule { tg: 64, vec: 2, unroll: 4, nsg: 1, nr0: 16 };
    let text = save_plan(s, "0.125000");
    assert_eq!(text, "tg=64\nvec=2\nunroll=4\nnsg=1\nnr0=16\nms=0.125000\n");
    assert_eq!(load_plan(&text), Some(s));
    let entry = BeamCacheEntry { schedule: s, ms: "0.5".to_string() };
    let back = load_beam_cache(&save_beam_cache(&entry)).unwrap();
    assert_eq!(back.schedule, s);
    assert_eq!(back.ms, "0.5");
}

#[test]
fn a_kept_tiling_may_lack_what_has_a_default() {
    let s = load_plan(" tg = +32 \r\nvec=1\nunroll=1\nms=1\nother=x\n").unwrap();
    assert_eq!(s, OptSchedule { tg: 32, vec: 1, unroll: 1, nsg: 2, nr0: 4 });
    assert_eq!(load_plan("tg=32\nvec=1\nunroll=1\n"), None);
    assert_eq!(load_plan("tg=32\nvec=1\nunroll=1\nms=1\nnonsense\n"), None);
    assert_eq!(load_plan("tg=32\ntg=x\nvec=1\nunroll=1\nms=1\n"), None);
    assert_eq!(load_plan("tg=32\nvec=4294967296\nunroll=1\nms=1\n"), None);
    assert_eq!(load_plan("tg=32\nvec=1\nunroll=1\nms=abc\n"), None);
    assert_eq!(load_plan("tg=32\nvec=1\nunroll=1\nms=1\nms=abc\n"), None);
}

#[test]
fn numbers_are_what_parses_as_one() {
    for t in [
        "0", "1.5", ".5", "5.", ".", "", "+", "-1", "+.5e-3", "1e5", "1E+05", "1e", "e5", "1e5.0",
        "inf", "-Infinity", "NaN", "nano", "1_000", " 1", "1 ", "0x10", "--1", "1.2.3", "1e1e1",
        "infinit", "+nan", "1.e2", "\u{661}", "abc",
    ] {
        let chars: Vec<char> = t.chars().collect();
        assert_eq!(reads_as_number(&chars), t.parse::<f64>().is_ok(), "{t:?}");
        let s = OptSchedule { tg: 64, vec: 2, unroll: 4, nsg: 1, nr0: 16 };
        if t.parse::<f64>().is_ok() {
            assert_eq!(load_plan(&save_plan(s, t)), Some(s));
        }
    }
}

#[test]
fn packed_products_are_recognised() {
    for dtype in [DType::F32, DType::F16] {
        let mut g = Graph::new();
        let w = g.input(matrix_shape(4, 256), DType::Q4K);
        let x = g.input(vector_shape(256), dtype);
        let y = g.matvec_prim(w, x).unwrap();
        let one = Scalar::Bits(1.0f32.to_bits());
        let two = Scalar::Bits(2.0f32.to_bits());
        let s = g.scale_const(y, one).unwrap();
        let t = g.scale_const(y, two).unwrap();
        assert_eq!(rewrite_region(&g, s).unwrap(), y);
        assert!(validate_q4_matvec_pattern(&g, y).unwrap());
        assert!(validate_q4_matvec_pattern(&g, s).unwrap());
        assert!(!validate_q4_matvec_pattern(&g, t).unwrap());
        assert!(!validate_q4_matvec_pattern(&g, w).unwrap());
    }
    let (g, out) = matvec(64, 256);
    assert!(!validate_q4_matvec_pattern(&g, out.unwrap()).unwrap());
}

#[test]
fn where_tilings_are_kept() {
    assert_eq!(beam_cache_dir(Some("/tmp/x"), Some("/home/u")), "/tmp/x");
    assert_eq!(beam_cache_dir(None, Some("/home/u")), "/home/u/.cache/ksearch/beam");
    assert_eq!(beam_cache_dir(None, None), ".ksearch_beam_cache");
    assert_eq!(plan_cache_dir(None, Some("/home/u")), "/home/u/.cache/ksearch/plan");
    assert_eq!(plan_cache_dir(Some("/a/b/"), None), "/a/plan");
    assert_eq!(plan_cache_dir(Some("/"), None), "/");
    assert_eq!(plan_cache_dir(None, None), "plan");
    for p in ["/a/b/", "a/./b", "/x", "a//b/.", "./a", "b"] {
        let want = match std::path::Path::new(p).parent() {
            Some(q) => q.join("plan").to_str().unwrap().to_string(),
            None => p.to_string(),
        };
        assert_eq!(plan_cache_dir(Some(p), None), want, "{p}");
    }
}

#[test]
fn the_fastest_of_equals_is_the_first() {
    assert_eq!(choose_fastest(&vec![5, 3, 9, 3]), Some(1));
    assert_eq!(choose_fastest(&vec![]), None);
    assert_eq!(choose_fastest(&vec![u64::MAX]), None);
    assert_eq!(median(5, 1, 3), 3);
    assert_eq!(median(2, 2, 7), 2);
}

#[test]
fn a_search_times_every_candidate() {
    let (g, out) = matvec(64, 256);
    let out = out.unwrap();
    let table = lits(region_constants(&g, out, None).unwrap());
    let (base, trials) = beam_search_matvec(&g, out, None, &table).unwrap();
    assert_eq!(trials.len(), 27);
    assert_eq!(base.schedule, OptSchedule::untuned());
    let want = trials[7].kernel.source.clone();
    let times: Vec<u64> = (0..27).map(|i| if i == 7 { 10u64 } else { 20 }).collect();
    let best = finish_search(base, trials, &times, false);
    assert_eq!(best.schedule, beam_matvec_candidates()[7]);
    assert_eq!(best.kernel.source, want);
    assert_eq!(best.ms, 10);
    let kept = OptSchedule { tg: 64, vec: 1, unroll: 1, nsg: 2, nr0: 4 };
    let (_, trials) = beam_search_matvec(&g, out, Some(kept), &table).unwrap();
    assert_eq!(trials.len(), 1);
    let (g, out) = elem_add(8);
    let e = beam_search_matvec(&g, out.unwrap(), None, &table).map(|r| r.1.len()).unwrap_err();
    assert_eq!(e.message(), "beam_search_matvec: not matvec");
}

#[test]
fn literals_of_the_listed_constants_are_enough() {
    let mut g = Graph::new();
    let x = g.input(vector_shape(8), DType::F32);
    let w = g.input(vector_shape(8), DType::F32);
    let out = g.rmsnorm_expand(x, w, Scalar::Bits(1e-6f32.to_bits())).unwrap();
    let consts = region_constants(&g, out, None).unwrap();
    assert!(!consts.is_empty());
    assert!(lower_to_metal(&g, out, None, &lits(consts)).is_ok());
    let e = lower_to_metal(&g, out, None, &vec![]).map(|k| k.name).unwrap_err();
    assert_eq!(e.message(), "render: no text for a constant");
}

#[test]
fn tilings_are_looked_up_by_dimensions() {
    let (g, out) = matvec(64, 256);
    let out = out.unwrap();
    assert_eq!(plan_lookup(&g, out).unwrap(), Some(("matvec_f32", vec![64, 256])));
    let (h, sum) = elem_add(8);
    assert_eq!(plan_lookup(&h, sum.unwrap()).unwrap(), None);
    assert_eq!(matvec_dims(&h, sum.unwrap()).unwrap(), vec![2]);
    let bad = OptSchedule { tg: 33, vec: 1, unroll: 1, nsg: 2, nr0: 4 };
    assert!(lower_with_schedule(&g, out, bad, &vec![]).is_err());
}

#[test]
fn attention_is_partitioned_from_a_threshold_on() {
    let few = Eng::sdpa_hybrid_kv(
        4, 64, 256, 127, DType::Q40, Buf::TmpQ, Buf::KvK { layer: 0 }, Buf::KvV { layer: 0 },
        Buf::Meta { layer: 0 }, Buf::TmpAttnMwg, Buf::TmpO,
    );
    assert!(matches!(few, Call::Sdpa { .. }));
    let many = Eng::sdpa_hybrid_kv(
        4, 64, 256, 128, DType::Q40, Buf::TmpQ, Buf::KvK { layer: 0 }, Buf::KvV { layer: 0 },
        Buf::Meta { layer: 0 }, Buf::TmpAttnMwg, Buf::TmpO,
    );
    assert!(many.check());
    assert_eq!(many.launches().unwrap().len(), 2);
}

#[test]
fn a_product_then_a_norm_are_kept_apart_by_a_barrier() {
    let call = Eng::matvec_rmsnorm_add(
        64, 256, EPS, DType::Q4K, Buf::Weight { layer: 1, which: LayerWeight::Proj }, Buf::PleU,
        Buf::PostNorm { layer: 1 }, Buf::X, Buf::X,
    );
    let works = call.launches().unwrap();
    assert_eq!(works.len(), 3);
    match &works[0] {
        Work::Launch { kernel, ins, outs } => {
            assert_eq!(kernel.key(), "mv_q4k_64x256");
            assert_eq!(ins.len(), 2);
            assert_eq!(outs[0].buf, Buf::Scratch { n: 64 });
        }
        Work::Barrier => panic!("a launch comes first"),
    }
    assert!(matches!(works[1], Work::Barrier));
    match &works[2] {
        Work::Launch { ins, .. } => assert_eq!(ins[0].buf, Buf::Scratch { n: 64 }),
        Work::Barrier => panic!("a launch comes last"),
    }
    assert_eq!(layer_tensor(3, LayerWeight::FfnDown.name()), "blk.3.ffn_down.weight");
}

#[test]
fn offsets_are_in_bytes() {
    let call = Eng::rmsnorm_at(64, EPS, Buf::X, 10, Buf::OutputNorm, Buf::X2, 20);
    match &call.launches().unwrap()[0] {
        Work::Launch { ins, outs, .. } => {
            assert_eq!(ins[0].offset, 20);
            assert_eq!(ins[1].offset, 0);
            assert_eq!(outs[0].offset, 40);
        }
        Work::Barrier => panic!("no launch"),
    }
    let wide = Eng::matvec_batch(64, 256, 8, DType::Q4K, Buf::TokenEmbd, Buf::X, Buf::X2);
    assert!(wide.launches().is_none());
}

#[test]
fn keys_tell_kernels_apart() {
    assert_eq!(Kernel::Matvec { rows: 4, cols: 8, weight: DType::F32 }.key(), "mv_f32_4x8");
    assert_eq!(
        Kernel::Sdpa { n_q: 8, hd: 64, max_t: 512, kv: DType::Q40 }.key(),
        "sdpa_f16_8_64_512_Q40"
    );
    assert_eq!(Kernel::CopySlice { n: 1, src_off: 2, dst_off: 3 }.key(), "csl_f16_1_2_3");
    assert!(!Kernel::RmsNormPerHead { n_heads: usize::MAX, hd: 2, eps: 0 }.check());
    assert!(!Kernel::Sdpa { n_q: 1, hd: 33, max_t: 1, kv: DType::F16 }.check());
}

#[test]
fn launch_grids_cover_every_element() {
    let g = launch_grid(&LaunchHint::Elementwise { n: 1000 }, 256);
    assert_eq!((g.groups_x, g.threads_x), (4, 256));
    let g = launch_grid(&LaunchHint::Elementwise { n: 10 }, 256);
    assert_eq!((g.groups_x, g.threads_x), (1, 10));
    let l = LaunchHint::RowsParallelSg { rows: 8, nsg: 2 };
    assert_eq!(tg_for(&l), 64);
    assert_eq!(launch_grid(&l, 64).groups_x, 8);
    let m = LaunchHint::MulMm { tg_x: 3, tg_y: 4, tw: 32, nsg: 4, smem: 8192 };
    assert_eq!(tg_for(&m), 128);
    assert_eq!(launch_grid(&m, 1).memory, Some(8192));
}

#[test]
fn launches_check_their_buffers() {
    let (g, out) = elem_add(8);
    let s = lower_to_metal(&g, out.unwrap(), None, &vec![]).unwrap();
    assert_eq!(check_counts(&s, 2, 2, 1, 1), Ok(()));
    assert_eq!(check_counts(&s, 3, 3, 1, 1), Err("expected 2 inputs, got 3".to_string()));
    assert_eq!(check_counts(&s, 2, 1, 1, 1), Err("expected 2 input offsets, got 1".to_string()));
    assert_eq!(check_counts(&s, 2, 2, 2, 2), Err("expected 1 outputs, got 2".to_string()));
    assert_eq!(check_counts(&s, 2, 2, 1, 0), Err("expected 1 output offsets, got 0".to_string()));
}

#[test]
fn products_worth_tuning_beforehand() {
    assert_eq!(warm_bytes(DType::Q4K, 256, 256), Some(36864));
    assert_eq!(warm_bytes(DType::F16, 10, 10), Some(200));
    assert_eq!(warm_bytes(DType::Q4K, 10, 10), None);
    assert_eq!(warm_bytes(DType::F32, 0, 10), None);
    assert_eq!(warm_bytes(DType::F32, usize::MAX, 2), None);
    assert_eq!(warm_bytes(DType::F16, 14_000_001, 1), None);
    assert_eq!(warm_bytes(DType::Q5K, 256, 256), None);
    assert_eq!(plan_kind(DType::F16), "matvec_f16_nr");
}

#[test]
fn command_line_values() {
    assert_eq!(expand_home("~/m/x.gguf", Some("/home/u")), "/home/u/m/x.gguf");
    assert_eq!(expand_home("~/m", None), "~/m");
    assert_eq!(expand_home("/abs", Some("/home/u")), "/abs");
    assert_eq!(parse_tokens("1, 2 ,+3"), Some(vec![1, 2, 3]));
    assert_eq!(parse_tokens("1,,2"), None);
    assert_eq!(parse_tokens("4294967296"), None);
    assert!(hi_gate("Hi! How can I help?", 3));
    assert!(!hi_gate("Hi! How can I help?", 0));
    assert!(!hi_gate("Hello", 3));
}

#[test]
fn scaling_by_one_is_elided() {
    let mut g = Graph::new();
    let x = g.input(vector_shape(4), DType::F32);
    let one = g.scale_const(x, Scalar::Bits(1.0f32.to_bits())).unwrap();
    let two = g.scale_const(x, Scalar::Bits(2.0f32.to_bits())).unwrap();
    assert_eq!(rewrite_region(&g, one).ok(), Some(x));
    assert_eq!(rewrite_region(&g, two).ok(), Some(two));
    assert!(rewrite_region(&g, TensorId(9)).is_err());
}
