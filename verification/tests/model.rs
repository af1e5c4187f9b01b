use ksearch::gemma::config::{GemmaConfig, GgufMeta};
use ksearch::gemma::forward::attention_span;
use ksearch::gemma::generate::{begin, GenAction, GenPhase, Generation};
use ksearch::gemma::kv_pool::{KvPool, PoolError, SlotId};
use ksearch::gemma::load::{
    ensure_weight, plan_buffers, plan_shapes, plan_uploads, Inventory, LayerTensors, TensorType,
    UploadKind,
};
use ksearch::gemma::model::{is_packed, samples, GemmaPrimModel, ModelError, Outcome, Step};
use ksearch::ir::dtype::DType;
use ksearch::kernels::buffer::{Buf, LayerWeight};
use ksearch::kernels::call::Call;
use ksearch::kernels::queue::MetalContext;

fn meta() -> GgufMeta {
    GgufMeta {
        block_count: Some(6),
        embedding_length: Some(256),
        head_count: Some(4),
        head_count_kv: None,
        key_length: Some(64),
        key_length_swa: Some(32),
        sliding_window: Some(4),
        shared_kv_layers: Some(2),
        rms_epsilon: None,
        softcapping: None,
        per_layer_input: Some(32),
        freq_base: None,
        freq_base_swa: None,
        feed_forward_list: Some(vec![512]),
        feed_forward: None,
        sliding_window_pattern: Some(vec![true, false, true, false, true, false]),
        token_rows: Some(1000),
    }
}

fn config() -> GemmaConfig {
    match GemmaConfig::from_gguf(&meta()) {
        Ok(c) => c,
        Err(e) => panic!("{e}"),
    }
}

fn tensors(t: TensorType) -> LayerTensors {
    LayerTensors {
        q: Some(t),
        k: Some(t),
        v: Some(t),
        output: Some(t),
        gate: Some(t),
        up: Some(t),
        down: Some(t),
        inp_gate: Some(TensorType::Other),
        proj: Some(TensorType::Other),
    }
}

fn inventory(ple: Option<TensorType>) -> Inventory {
    Inventory {
        token_embd: TensorType::Q4K,
        ple_model_proj: true,
        ple_token_embd: ple,
        layers: vec![tensors(TensorType::Q4K); 6],
        layer_scales: vec![0x3F800000; 6],
        embed_scale: 16.0f32.to_bits(),
        ple_scale: 32.0f32.sqrt().to_bits(),
    }
}

fn model(ple: Option<TensorType>) -> GemmaPrimModel {
    match GemmaPrimModel::load(config(), 16, &inventory(ple)) {
        Some(m) => m,
        None => panic!("incomplete"),
    }
}

#[test]
fn dimensions_from_a_file() {
    let c = config();
    assert_eq!(c.n_kv, 1);
    assert_eq!(c.ffn, vec![512; 6]);
    assert_eq!(c.rms_eps, 1e-6f32.to_bits());
    assert_eq!(c.softcap, 30.0f32.to_bits());
    assert_eq!(c.rope_theta_full, 1_000_000.0f32.to_bits());
    assert_eq!(c.rope_theta_swa, 10_000.0f32.to_bits());
    assert_eq!(c.partial_rotary, 0.25f32.to_bits());
    assert_eq!(c.ple_total(), 192);
    assert_eq!(c.head_dim(0), 32);
    assert_eq!(c.head_dim(1), 64);
    assert!(c.is_swa(99));
    assert!(c.check(16));
    let mut m = meta();
    m.block_count = None;
    assert!(matches!(GemmaConfig::from_gguf(&m), Err("block_count")));
}

#[test]
fn defaults_where_a_file_is_silent() {
    let mut m = meta();
    m.feed_forward_list = None;
    m.sliding_window_pattern = None;
    m.token_rows = None;
    let c = GemmaConfig::from_gguf(&m).unwrap();
    assert_eq!(c.ffn, vec![6144; 6]);
    assert_eq!(c.swa_pattern, vec![true, true, true, true, true, false]);
    assert_eq!(c.vocab, 262144);
    m.feed_forward_list = Some(vec![1, 2, 3]);
    assert_eq!(GemmaConfig::from_gguf(&m).unwrap().ffn, vec![6144; 6]);
    m.feed_forward_list = Some(vec![1, 2, 3, 4, 5, 6]);
    assert_eq!(GemmaConfig::from_gguf(&m).unwrap().ffn, vec![1, 2, 3, 4, 5, 6]);
}

#[test]
fn shared_layers_read_what_others_keep() {
    let c = config();
    assert_eq!(c.n_kv_owners(), 4);
    for layer in 0..4 {
        assert!(c.owns_kv(layer));
        assert_eq!(c.kv_source(layer), layer);
    }
    assert!(!c.owns_kv(4));
    assert_eq!(c.kv_source(4), 2);
    assert_eq!(c.kv_source(5), 3);
}

#[test]
fn alloc_free_batch() {
    let mut pool = KvPool::new(4, 64, 2, 256, 1).expect("pool");
    let a = pool.alloc_slot().unwrap();
    let b = pool.alloc_slot().unwrap();
    assert_ne!(a, b);
    assert_eq!(pool.active_batch().len(), 2);
    pool.free(a).unwrap();
    assert_eq!(pool.active_batch().len(), 1);
    let c = pool.alloc_slot().unwrap();
    assert_eq!(c, a); // reuses freed slot
}

#[test]
fn slots_grow_up_to_their_end() {
    let mut pool = KvPool::new(2, 3, 1, 32, 1).unwrap();
    let a = pool.alloc_slot().unwrap();
    assert_eq!(pool.bump_len_by(a, 2), Ok(2));
    assert_eq!(pool.bump_len(a), Ok(3));
    assert_eq!(pool.bump_len(a), Err(PoolError::SeqFull));
    assert_eq!(pool.bump_len_by(a, usize::MAX), Err(PoolError::SeqFull));
    assert_eq!(pool.seq_len(a), Ok(3));
    assert_eq!(pool.bump_len(SlotId(1)), Err(PoolError::NotOccupied));
    assert_eq!(pool.bump_len(SlotId(7)), Err(PoolError::BadSlot));
    assert_eq!(pool.clear_slot(SlotId(7)), Err(PoolError::BadSlot));
    assert_eq!(pool.kv_index(a, 1), Err(PoolError::BadIndex));
    assert_eq!(pool.kv_index(a, 0), Ok((0, 0)));
    pool.free(a).unwrap();
    assert_eq!(pool.seq_len(a), Ok(0));
    assert_eq!(pool.alloc_slot(), Ok(SlotId(0)));
    assert_eq!(pool.alloc_slot(), Ok(SlotId(1)));
    let full = pool.alloc_slot().unwrap_err();
    assert_eq!(full.message(), "KvPool full (max_batch=2)");
}

#[test]
fn pools_have_dimensions() {
    assert!(matches!(KvPool::new(0, 3, 1, 32, 1), Err(PoolError::ZeroDims)));
    assert_eq!(PoolError::ZeroDims.message(), "KvPool dims must be non-zero");
    assert_eq!(KvPool::new(1, 64, 1, 256, 2).unwrap().cache_bytes(), 64 * 2 * 144);
    assert_eq!(KvPool::new_f16(1, 64, 1, 256, 1).unwrap().cache_bytes(), 64 * 256 * 2);
    assert_eq!(KvPool::new_f32(1, 64, 1, 256, 1).unwrap().cache_bytes(), 64 * 256 * 4);
}

#[test]
fn how_weights_are_kept() {
    let q6 = TensorType::Q6K;
    assert_eq!(ensure_weight("blk.0.attn_q.weight", TensorType::Q4K), (UploadKind::Raw, DType::Q4K));
    assert_eq!(ensure_weight("blk.0.attn_q.weight", q6), (UploadKind::Raw, DType::Q6K));
    assert_eq!(ensure_weight("blk.0.attn_v.weight", q6), (UploadKind::QuantizeQ4K, DType::Q4K));
    assert_eq!(ensure_weight("blk.9.ffn_down.weight", q6), (UploadKind::QuantizeQ4K, DType::Q4K));
    assert_eq!(
        ensure_weight("blk.0.proj.weight", TensorType::Other),
        (UploadKind::QuantizeQ4K, DType::Q4K)
    );
    assert!(is_packed(DType::Q6K) && !is_packed(DType::F16));
}

#[test]
fn uploads_in_order() {
    let v = plan_uploads(&config(), &inventory(Some(TensorType::Q5K)));
    assert_eq!(v.len(), 3 + 6 * 7 + 1 + 6 * 9 + 1);
    assert_eq!(v[0].name, "token_embd.weight");
    assert_eq!(v[0].how, UploadKind::Raw);
    assert_eq!(v[3].name, "blk.0.attn_norm.weight");
    assert_eq!(v[3].buf, Buf::AttnNorm { layer: 0 });
    assert_eq!(v[45].how, UploadKind::ScaleQuantizeQ4K);
    assert_eq!(v[46].name, "blk.0.attn_q.weight");
    assert_eq!(v.last().unwrap().buf, Buf::PleEmbd);
    let w = plan_uploads(&config(), &inventory(Some(TensorType::Q4K)));
    assert_eq!(w.len() + 1, v.len());
}

#[test]
fn buffers_have_their_sizes() {
    let v = plan_buffers(&config(), 16);
    let size = |b: Buf| v.iter().find(|p| p.0 == b).map(|p| p.1);
    assert_eq!(size(Buf::KvK { layer: 1 }), Some(16 * 36));
    assert_eq!(size(Buf::KvV { layer: 0 }), Some(16 * 18));
    assert_eq!(size(Buf::KvK { layer: 4 }), None);
    assert_eq!(size(Buf::Meta { layer: 5 }), Some(32));
    assert_eq!(size(Buf::X), Some(256 * 256 * 2));
    assert_eq!(size(Buf::TmpAttnMwg), Some(256 * 4 * 16 * 66 * 4));
    assert_eq!(size(Buf::TmpFf3), Some(256 * 512 * 2));
    assert_eq!(size(Buf::Logits), Some(2000));
    assert_eq!(size(Buf::RopeFull), Some(16 * 64 * 2));
}

#[test]
fn shapes_to_tune_are_sorted_and_single() {
    let v = plan_shapes(&config(), 16);
    let mut w = v.clone();
    w.sort();
    w.dedup();
    assert_eq!(v, w);
    assert!(v.contains(&(192, 256)));
    assert!(v.contains(&(256, 512)));
    assert!(v.contains(&(128, 256)));
    assert!(v.contains(&(32, 256)));
}

#[test]
fn incomplete_files_are_not_loaded() {
    let mut inv = inventory(None);
    inv.layers[3].k = None;
    assert!(GemmaPrimModel::load(config(), 16, &inv).is_none());
    let mut inv = inventory(None);
    inv.layers[5].k = None;
    inv.layers[5].v = None;
    assert!(GemmaPrimModel::load(config(), 16, &inv).is_some());
    let mut inv = inventory(None);
    inv.ple_model_proj = false;
    assert!(GemmaPrimModel::load(config(), 16, &inv).is_none());
}

#[test]
fn what_a_token_attends_to() {
    assert_eq!(attention_span(true, 4, 2), (3, 0));
    assert_eq!(attention_span(true, 4, 3), (4, 0));
    assert_eq!(attention_span(true, 4, 9), (4, 6));
    assert_eq!(attention_span(false, 4, 9), (10, 0));
}

#[test]
fn temperatures_that_sample() {
    assert!(!samples(0.0f32.to_bits()));
    assert!(!samples(9e-7f32.to_bits()));
    assert!(samples(1e-6f32.to_bits()));
    assert!(samples(1.0f32.to_bits()));
    assert!(!samples((-1.0f32).to_bits()));
    assert!(!samples(f32::NAN.to_bits()));
}

fn calls(steps: &[Step]) -> Vec<Call> {
    steps
        .iter()
        .filter_map(|s| match s {
            Step::Run { call } => Some(*call),
            _ => None,
        })
        .collect()
}

#[test]
fn a_greedy_decode_step() {
    let mut m = model(Some(TensorType::Q5K));
    let (steps, outcome) = m.decode_token(42).unwrap();
    assert_eq!(outcome, Outcome::Argmax { slot: 1 });
    assert_eq!(m.pos, 1);
    assert_eq!((m.slot, m.decode_src, m.sample_seed), (None, 0, 1));
    assert_eq!(steps[0], Step::Synchronize);
    assert_eq!(steps[1], Step::WriteToken { slot: 0, token: 42 });
    let c = calls(&steps);
    assert!(matches!(c[0], Call::CopyScaleIndexed { n: 256, src: Buf::TokenEmbd, .. }));
    assert!(matches!(c.last(), Some(Call::SoftcapArgmax { n: 1000, out: Buf::TokIdx { i: 1 }, .. })));
    assert!(c.iter().all(|x| x.check()));
    // Layers 0 to 3 keep keys and values; the others do not.
    assert_eq!(c.iter().filter(|x| matches!(x, Call::QkvNormQ40 { .. })).count(), 4);
    assert_eq!(c.iter().filter(|x| matches!(x, Call::RmsNormPerHeadRope { .. })).count(), 2);
    assert!(steps.contains(&Step::WriteMeta { layer: 0, tlen: 1, start: 0, window: 0 }));
    assert!(c.iter().any(|x| matches!(
        x,
        Call::GateUpGelu { rows: 512, cols: 256, weight: DType::Q4K, x: Buf::X2, y: Buf::TmpFf3, .. }
    )));
}

#[test]
fn a_sampled_decode_step() {
    let mut m = model(None);
    let t = 0.7f32.to_bits();
    let (steps, outcome) = m.decode_token_sampled(7, t, 5, 9).unwrap();
    assert_eq!(
        outcome,
        Outcome::Sampled { cap: 30.0f32.to_bits(), temperature: t, min_p: 5, seed: 9 }
    );
    assert_eq!(m.sample_temperature, 0);
    assert!(!calls(&steps).iter().any(|x| matches!(x, Call::SoftcapArgmax { .. })));
    assert!(steps.contains(&Step::WritePleRow { stage: 0, token: 7 }));
    assert!(calls(&steps).iter().any(|x| matches!(
        x,
        Call::CopyScale { src: Buf::TokenEmbd, src_byte_off: 1008, dst: Buf::X, .. }
    )));
}

#[test]
fn a_prompt_in_chunks() {
    let mut m = model(Some(TensorType::Q5K));
    let steps = m.prefill_chunk(&vec![5, 6, 7]).unwrap();
    assert_eq!(m.pos, 3);
    assert_eq!(steps[1], Step::WriteChunkToken { i: 1, token: 6 });
    assert!(steps.contains(&Step::WriteMeta { layer: 0, tlen: 1, start: 0, window: 4 }));
    assert!(steps.contains(&Step::WriteMeta { layer: 1, tlen: 1, start: 0, window: 16 }));
    assert_eq!(steps.last(), Some(&Step::Synchronize));
    let one = m.prefill_chunk(&vec![8]).unwrap();
    assert_eq!(m.pos, 4);
    assert_eq!(m.decode_src, 1);
    assert!(one.contains(&Step::WriteToken { slot: 1, token: 8 }));
    assert!(one.contains(&Step::WriteMeta { layer: 0, tlen: 4, start: 0, window: 0 }));
    assert!(one.contains(&Step::Flush));
    let err = m.prefill_chunk(&vec![1; 13]).unwrap_err();
    assert_eq!(err, ModelError::MaxSeq);
    assert_eq!(err.message(), "max_seq exceeded");
    assert_eq!(m.pos, 4);
    assert!(m.prefill_chunk(&vec![1; 12]).is_ok());
    assert_eq!(m.prefill_token(1).unwrap_err(), ModelError::MaxSeq);
    m.reset();
    assert_eq!((m.pos, m.decode_src), (0, 0));
}

#[test]
fn mixed_packings_are_multiplied_one_by_one() {
    let mut inv = inventory(None);
    inv.layers[0].q = Some(TensorType::Q6K);
    inv.layers[0].up = Some(TensorType::Q6K);
    let mut m = GemmaPrimModel::load(config(), 16, &inv).unwrap();
    let (steps, _) = m.decode_token(0).unwrap();
    let c = calls(&steps);
    let wq = Buf::Weight { layer: 0, which: LayerWeight::AttnQ };
    assert!(c.iter().any(|x| matches!(x, Call::Matvec { weight: DType::Q6K, a, .. } if *a == wq)));
    assert!(c.iter().any(|x| matches!(x, Call::GeluMul { gate: Buf::TmpFf1, up: Buf::TmpFf2, .. })));
}

#[test]
fn slots_are_bound() {
    let mut m = model(None);
    let mut pool = m.make_kv_pool(2).unwrap();
    assert!(pool.f32_kv);
    assert_eq!(pool.kv_elem_bytes, 4);
    assert_eq!(pool.slots.len(), 2);
    assert_eq!(pool.max_seq, m.max_seq());
    assert_eq!(pool.hd, 64);
    assert_eq!(pool.n_kv_layers, 4);
    let a = pool.alloc_slot().unwrap();
    pool.bump_len_by(a, 5).unwrap();
    m.bind_slot(&pool, a).unwrap();
    assert_eq!(m.pos, 5);
    assert_eq!(m.bind_slot(&pool, SlotId(9)), Err(ModelError::BadSlot));
    let other = KvPool::new(1, 16, 3, 64, 1).unwrap();
    let e = m.bind_slot(&other, SlotId(0)).unwrap_err();
    assert_eq!(e.message(), "kv layer mismatch: model=4 pool=3");
    assert_eq!(m.max_seq(), 16);
}

#[test]
fn a_generation_begins_behind_all_but_the_last_token() {
    let (head, g) = begin(&vec![5, 6, 7], 4, false).unwrap();
    assert_eq!(head, vec![5, 6]);
    assert_eq!(g.tok, 7);
    assert_eq!(g.n_new, 4);
    assert_eq!(g.phase, GenPhase::Decode);
    assert!(begin(&vec![9], 0, true).unwrap().0.is_empty());
    let e = begin(&vec![], 4, false).map(|r| r.0).unwrap_err();
    assert_eq!(e, ModelError::EmptyPrompt);
    assert_eq!(e.message(), "empty prompt");
}

#[test]
fn a_generation_one_token_after_the_other() {
    let mut g = Generation::new(10, 3, false);
    assert_eq!(g.action(), GenAction::Decode { token: 10, src: 0 });
    g.take(11);
    assert_eq!(g.action(), GenAction::Decode { token: 11, src: 0 });
    g.take(106);
    assert_eq!(g.action(), GenAction::Done);
    assert_eq!(g.out, vec![11, 106]);
    let g = Generation::new(1, 0, true);
    assert_eq!(g.phase, GenPhase::Done);
}

#[test]
fn a_generation_in_a_pipe() {
    let mut g = Generation::new(10, 3, true);
    assert_eq!(g.action(), GenAction::Decode { token: 10, src: 0 });
    g.decoded();
    assert_eq!(g.action(), GenAction::Decode { token: 10, src: 1 });
    g.decoded();
    assert_eq!(g.action(), GenAction::Read { slot: 1, inflight: 1 });
    g.take(20);
    assert_eq!(g.action(), GenAction::Decode { token: 20, src: 0 });
    g.decoded();
    assert_eq!(g.action(), GenAction::Read { slot: 0, inflight: 1 });
    g.take(21);
    assert_eq!(g.action(), GenAction::Read { slot: 1, inflight: 0 });
    g.take(22);
    assert_eq!(g.action(), GenAction::Done);
    assert_eq!(g.out, vec![20, 21, 22]);
}

#[test]
fn a_generation_stops_behind_the_end_of_the_text() {
    let stream = [20u32, 21, 106, 22, 23];
    for piped in [false, true] {
        for (n_new, want) in [(0, 0), (1, 1), (2, 2), (3, 3), (4, 3), (5, 3)] {
            let mut g = Generation::new(10, n_new, piped);
            loop {
                match g.action() {
                    GenAction::Decode { .. } if piped => g.decoded(),
                    GenAction::Done => break,
                    _ => g.take(stream[g.out.len()]),
                }
            }
            assert_eq!(g.out, stream[..want]);
        }
    }
}

#[test]
fn command_buffers_are_waited_for_in_order() {
    let mut c: MetalContext<u32> = MetalContext::new();
    assert!(!c.has_gpu_work() && c.needs_pending() && !c.encoder_barrier());
    for i in 0..4 {
        c.ensure_pending(i);
        assert!(c.encoder_barrier() && !c.needs_pending());
        c.flush_async();
        c.flush_async();
    }
    assert_eq!(c.wait_inflight_at_most(3), vec![0]);
    assert_eq!(c.wait_inflight_at_most(3), Vec::<u32>::new());
    assert_eq!(c.reap_completed(&vec![true, false, true]), 1);
    assert_eq!(c.inflight, vec![2, 3]);
    assert_eq!(c.wait_inflight_at_most(1), vec![2]);
    c.ensure_pending(9);
    assert_eq!(c.synchronize(), vec![3, 9]);
    assert!(!c.has_gpu_work());
}
