//! The plan of a forward pass: which calls a token or a chunk of tokens makes of the engine, in
//! which order and on which buffers.

use vstd::prelude::*;
use vstd::string::*;

use crate::gemma::config::GemmaConfig;
use crate::gemma::kv_pool::SlotId;
use crate::ir::dtype::{DType, ONE};
use crate::kernels::buffer::{Buf, LayerWeight};
use crate::kernels::call::{Call, Eng};
use crate::text::{dec, dec_usize};

verus! {

/// Tokens in a prefill chunk.
pub const PREFILL_CHUNK_SIZE: usize = 256;

/// The bit pattern of 0.70710677, one over the square root of two.
pub const FRAC_1_SQRT_2: u32 = 0x3F3504F3;

/// The bit pattern of 1e-6: from this temperature on tokens are sampled.
pub const LEAST_TEMPERATURE: u32 = 0x358637BD;

/// The bit pattern of infinity.
pub const INFINITY: u32 = 0x7F800000;

/// Whether weights of this element type are multiplied packed.
#[verifier::allow_in_spec]
pub fn is_packed(d: DType) -> bool
    returns
        d == DType::Q4K || d == DType::Q6K,
{
    match d {
        DType::Q4K | DType::Q6K => true,
        _ => false,
    }
}

/// Whether a temperature, as a bit pattern, asks for sampling.
#[verifier::allow_in_spec]
pub fn samples(temperature: u32) -> bool
    returns
        LEAST_TEMPERATURE <= temperature && temperature <= INFINITY,
{
    LEAST_TEMPERATURE <= temperature && temperature <= INFINITY
}

/// The dimensions of a layer.
#[derive(Clone, Copy, Debug, PartialEq, Eq, Structural)]
pub struct LayerMeta {
    pub q_rows: usize,
    pub kv_rows: usize,
    pub o_in: usize,
    pub ffn_inter: usize,
    pub hd: usize,
}

/// The element types of the matrices of a layer, as they are kept on the device.
#[derive(Clone, Copy, Debug, PartialEq, Eq, Structural)]
pub struct LayerTypes {
    pub q: DType,
    pub k: DType,
    pub v: DType,
    pub output: DType,
    pub gate: DType,
    pub up: DType,
    pub down: DType,
    pub inp_gate: DType,
    pub proj: DType,
}

/// One step of a plan.
#[derive(Clone, Copy, Debug, PartialEq, Eq, Structural)]
pub enum Step {
    /// Waits until at most so many command buffers are in flight.
    WaitInflight { max: usize },
    /// Writes a token number to one of the two token buffers.
    WriteToken { slot: usize, token: u32 },
    /// Writes a token number into the chunk buffer.
    WriteChunkToken { i: usize, token: u32 },
    /// Expands the row of a token of the per-layer embeddings, scales it, and writes it to a stage.
    WritePleRow { stage: usize, token: u32 },
    /// Writes the positions that attention of a layer looks at.
    WriteMeta { layer: usize, tlen: u32, start: u32, window: u32 },
    /// A call of the engine.
    Run { call: Call },
    /// Commits what was encoded, without waiting.
    Flush,
    /// Waits for everything.
    Synchronize,
}

/// What comes of a plan.
#[derive(Clone, Copy, Debug, PartialEq, Eq, Structural)]
pub enum Outcome {
    /// No token.
    Nothing,
    /// The number in one of the two token buffers.
    Argmax { slot: usize },
    /// A token sampled from the logits.
    Sampled { cap: u32, temperature: u32, min_p: u32, seed: u32 },
}

/// What can go wrong in making a plan.
#[derive(Clone, Copy, Debug, PartialEq, Eq, Structural)]
pub enum ModelError {
    MaxSeq,
    EmbedNotWired,
    EmptyPrompt,
    KvLayers { model: usize, pool: usize },
    BadSlot,
}

impl ModelError {
    pub open spec fn text(self) -> Seq<char> {
        match self {
            ModelError::MaxSeq => "max_seq exceeded"@,
            ModelError::EmbedNotWired => "token_embd Q5/Q6 embed not wired"@,
            ModelError::EmptyPrompt => "empty prompt"@,
            ModelError::KvLayers { model, pool } => "kv layer mismatch: model="@ + dec(model as nat)
                + " pool="@ + dec(pool as nat),
            ModelError::BadSlot => "bad SlotId"@,
        }
    }

    pub fn message(self) -> (r: String)
        ensures
            r@ == self.text(),
    {
        match self {
            ModelError::MaxSeq => String::from_str("max_seq exceeded"),
            ModelError::EmbedNotWired => String::from_str("token_embd Q5/Q6 embed not wired"),
            ModelError::EmptyPrompt => String::from_str("empty prompt"),
            ModelError::KvLayers { model, pool } => String::from_str(
                "kv layer mismatch: model=",
            ).concat(dec_usize(model).as_str()).concat(" pool=").concat(dec_usize(pool).as_str()),
            ModelError::BadSlot => String::from_str("bad SlotId"),
        }
    }
}

/// A loaded model: what a forward pass depends on. Floating-point values are bit patterns.
#[derive(Debug)]
pub struct GemmaPrimModel {
    pub cfg: GemmaConfig,
    pub layers: Vec<LayerMeta>,
    pub types: Vec<LayerTypes>,
    /// The scale of the output of each layer.
    pub layer_scales: Vec<u32>,
    pub embd_dtype: DType,
    /// Whether the packed table of per-layer embeddings is on the device.
    pub ple_packed: bool,
    /// The square root of the width.
    pub embed_scale: u32,
    /// The square root of the per-layer width.
    pub ple_scale: u32,
    /// Layers with keys and values of their own.
    pub kv_layers: usize,
    /// The slot whose keys and values are bound.
    pub slot: Option<SlotId>,
    pub max_seq: usize,
    pub pos: usize,
    pub decode_src: usize,
    pub return_token_sync: bool,
    pub sample_temperature: u32,
    pub sample_min_p: u32,
    pub sample_seed: u32,
}

impl GemmaConfig {
    /// The larger of the two head sizes.
    pub open spec fn max_hd(self) -> usize {
        if self.head_dim_full >= self.head_dim_swa {
            self.head_dim_full
        } else {
            self.head_dim_swa
        }
    }

    /// Whether every size that a forward pass over `max_seq` positions needs is a machine integer.
    pub open spec fn fits(self, max_seq: usize) -> bool {
        &&& self.head_dim_full % 32 == 0
        &&& self.head_dim_swa % 32 == 0
        &&& self.max_hd() <= usize::MAX - 2
        &&& mul_fits(self.n_heads as int, self.max_hd() as int, 2 * PREFILL_CHUNK_SIZE)
        &&& mul_fits(self.n_heads as int, self.max_hd() + 2, 64 * PREFILL_CHUNK_SIZE)
        &&& mul_fits(self.n_kv as int, self.max_hd() as int, 2 * PREFILL_CHUNK_SIZE)
        &&& mul_fits(max_seq as int, self.max_hd() as int, 2)
        &&& max_seq <= u32::MAX
        &&& self.sliding_window <= u32::MAX
        &&& mul_fits(self.n_layers as int, self.ple_dim as int, 2 * PREFILL_CHUNK_SIZE)
        &&& mul_fits(self.ple_dim as int, 1, 2 * PREFILL_CHUNK_SIZE)
        &&& mul_fits(self.n_layers as int, 1, 2 * PREFILL_CHUNK_SIZE)
        &&& mul_fits(self.hidden as int, 1, 2 * PREFILL_CHUNK_SIZE)
        &&& mul_fits(self.vocab as int, 1, 2)
        &&& self.shared_kv_layers <= self.n_layers
        &&& self.ffn@.len() == self.n_layers
        &&& widths_fit(self.ffn@)
    }
}

/// Whether a product of three, formed from the left, stays within machine integers.
pub open spec fn mul_fits(a: int, b: int, c: int) -> bool {
    a * b <= usize::MAX && a * b * c <= usize::MAX
}

/// Whether the buffers for feed-forward layers of these widths have machine sizes.
pub open spec fn widths_fit(ffn: Seq<usize>) -> bool {
    forall|i: int|
        0 <= i < ffn.len() ==> #[trigger] mul_fits(ffn[i] as int, 1, 2 * PREFILL_CHUNK_SIZE)
}

fn check_mul(a: usize, b: usize, c: usize) -> (r: bool)
    ensures
        r == mul_fits(a as int, b as int, c as int),
{
    match a.checked_mul(b) {
        None => false,
        Some(p) => p.checked_mul(c).is_some(),
    }
}

impl GemmaConfig {
    /// Checks that the sizes of a forward pass are machine integers.
    pub fn check(&self, max_seq: usize) -> (r: bool)
        ensures
            r == self.fits(max_seq),
    {
        let hd: usize = if self.head_dim_full >= self.head_dim_swa {
            self.head_dim_full
        } else {
            self.head_dim_swa
        };
        let t: usize = 2 * PREFILL_CHUNK_SIZE;
        if self.head_dim_full % 32 != 0 || self.head_dim_swa % 32 != 0 || hd > usize::MAX - 2 {
            return false;
        }
        if !check_mul(self.n_heads, hd, t) || !check_mul(self.n_heads, hd + 2, 32 * t)
            || !check_mul(self.n_kv, hd, t) || !check_mul(max_seq, hd, 2) {
            return false;
        }
        if max_seq > u32::MAX as usize || self.sliding_window > u32::MAX as usize {
            return false;
        }
        if !check_mul(self.n_layers, self.ple_dim, t) || !check_mul(self.ple_dim, 1, t)
            || !check_mul(self.n_layers, 1, t) || !check_mul(self.hidden, 1, t) || !check_mul(
            self.vocab,
            1,
            2,
        ) {
            return false;
        }
        if self.shared_kv_layers > self.n_layers || self.ffn.len() != self.n_layers {
            return false;
        }
        let mut i: usize = 0;
        while i < self.ffn.len()
            invariant
                i <= self.ffn@.len(),
                t == 2 * PREFILL_CHUNK_SIZE,
                forall|k: int|
                    0 <= k < i ==> #[trigger] mul_fits(
                        self.ffn@[k] as int,
                        1,
                        2 * PREFILL_CHUNK_SIZE,
                    ),
            decreases self.ffn@.len() - i,
        {
            if !check_mul(self.ffn[i], 1, t) {
                assert(!mul_fits(self.ffn@[i as int] as int, 1, 2 * PREFILL_CHUNK_SIZE));
                return false;
            }
            i += 1;
        }
        true
    }

    /// What the sizes of a pass come to for one layer.
    pub proof fn lemma_layer_fits(self, max_seq: usize, layer: int)
        requires
            self.fits(max_seq),
            0 <= layer < self.n_layers,
        ensures
            self.n_heads * self.hd(layer) <= usize::MAX,
            self.n_kv * self.hd(layer) <= usize::MAX,
            max_seq * self.hd(layer) * 2 <= usize::MAX,
            self.hd(layer) % 32 == 0,
            PREFILL_CHUNK_SIZE * self.ffn@[layer] * 2 <= usize::MAX,
    {
        let hd = self.hd(layer) as int;
        let top = self.max_hd() as int;
        assert(self.n_heads * hd <= self.n_heads * top) by (nonlinear_arith)
            requires
                hd <= top,
        ;
        assert(self.n_kv * hd <= self.n_kv * top) by (nonlinear_arith)
            requires
                hd <= top,
        ;
        assert(max_seq * hd <= max_seq * top) by (nonlinear_arith)
            requires
                hd <= top,
        ;
        assert(mul_fits(self.ffn@[layer] as int, 1, 2 * PREFILL_CHUNK_SIZE));
    }
}

/// The dimensions of a layer.
pub open spec fn meta_of(cfg: GemmaConfig, layer: int) -> LayerMeta {
    let hd = cfg.hd(layer);
    LayerMeta {
        q_rows: (cfg.n_heads * hd) as usize,
        kv_rows: (cfg.n_kv * hd) as usize,
        o_in: (cfg.n_heads * hd) as usize,
        ffn_inter: cfg.ffn@[layer],
        hd,
    }
}

impl GemmaPrimModel {
    /// Whether the model is consistent.
    pub open spec fn wf(self) -> bool {
        &&& self.cfg.fits(self.max_seq)
        &&& self.layers@ == Seq::new(self.cfg.n_layers as nat, |i: int| meta_of(self.cfg, i))
        &&& self.types@.len() == self.cfg.n_layers
        &&& self.layer_scales@.len() == self.cfg.n_layers
        &&& self.kv_layers == self.cfg.owners()
        &&& self.decode_src < 2
    }

    /// Whether everything that a plan does not change is as in another model.
    pub open spec fn same_model(self, o: GemmaPrimModel) -> bool {
        &&& self.cfg == o.cfg
        &&& self.layers == o.layers
        &&& self.types == o.types
        &&& self.layer_scales == o.layer_scales
        &&& self.embd_dtype == o.embd_dtype
        &&& self.ple_packed == o.ple_packed
        &&& self.embed_scale == o.embed_scale
        &&& self.ple_scale == o.ple_scale
        &&& self.kv_layers == o.kv_layers
        &&& self.max_seq == o.max_seq
    }

    /// Whether the row of a token can be addressed in the token embeddings.
    pub open spec fn token_fits(self, token: u32) -> bool {
        token * self.cfg.hidden * 2 <= usize::MAX
    }

    /// The call that copies the embedding of a token into the activations.
    pub open spec fn embed_call(self, token: u32) -> Result<Call, ModelError> {
        let h = self.cfg.hidden;
        match self.embd_dtype {
            DType::F16 => Ok(
                Eng::copy_scale_wd(
                    h,
                    self.embed_scale,
                    DType::F16,
                    Buf::TokenEmbd,
                    (token * h * 2) as usize,
                    Buf::X,
                    0,
                ),
            ),
            DType::Q4K => Ok(
                Eng::copy_scale_wd(
                    h,
                    self.embed_scale,
                    DType::Q4K,
                    Buf::TokenEmbd,
                    (token * (h / 256 * 144)) as usize,
                    Buf::X,
                    0,
                ),
            ),
            _ => Err(ModelError::EmbedNotWired),
        }
    }

    pub fn embed_token(&self, token: u32) -> (r: Result<Call, ModelError>)
        requires
            self.token_fits(token),
        ensures
            r == self.embed_call(token),
    {
        let h: usize = self.cfg.hidden;
        match self.embd_dtype {
            DType::F16 => {
                assert(token * h * 2 == (token * h) * 2);
                let off: usize = token as usize * h * 2;
                Ok(
                    Eng::copy_scale_wd(
                        h,
                        self.embed_scale,
                        DType::F16,
                        Buf::TokenEmbd,
                        off,
                        Buf::X,
                        0,
                    ),
                )
            },
            DType::Q4K => {
                let row_bytes: usize = (h / 256) * 144;
                assert(token * row_bytes <= token * h * 2) by (nonlinear_arith)
                    requires
                        row_bytes <= h * 2,
                        0 <= token,
                ;
                Ok(
                    Eng::copy_scale_wd(
                        h,
                        self.embed_scale,
                        DType::Q4K,
                        Buf::TokenEmbd,
                        token as usize * row_bytes,
                        Buf::X,
                        0,
                    ),
                )
            },
            _ => Err(ModelError::EmbedNotWired),
        }
    }

    /// The call that copies the embedding of the token in a token buffer.
    pub open spec fn embed_idx_call(self, src: usize) -> Result<Call, ModelError> {
        match self.embd_dtype {
            DType::F16 | DType::Q4K => Ok(
                Eng::copy_scale_indexed_wd(
                    self.cfg.hidden,
                    self.embed_scale,
                    self.embd_dtype,
                    Buf::TokenEmbd,
                    Buf::TokIdx { i: src },
                    Buf::X,
                ),
            ),
            _ => Err(ModelError::EmbedNotWired),
        }
    }

    pub fn embed_from_idx(&self, src: usize) -> (r: Result<Call, ModelError>)
        ensures
            r == self.embed_idx_call(src),
    {
        match self.embd_dtype {
            DType::F16 | DType::Q4K => Ok(
                Eng::copy_scale_indexed_wd(
                    self.cfg.hidden,
                    self.embed_scale,
                    self.embd_dtype,
                    Buf::TokenEmbd,
                    Buf::TokIdx { i: src },
                    Buf::X,
                ),
            ),
            _ => Err(ModelError::EmbedNotWired),
        }
    }

    /// The call that copies the embeddings of the tokens of a chunk.
    pub open spec fn embed_batch_call(self, batch: usize) -> Result<Call, ModelError> {
        match self.embd_dtype {
            DType::F16 | DType::Q4K => Ok(
                Eng::copy_scale_indexed_batch_wd(
                    self.cfg.hidden,
                    batch,
                    self.embed_scale,
                    self.embd_dtype,
                    Buf::TokenEmbd,
                    Buf::ChunkTok,
                    Buf::X,
                ),
            ),
            _ => Err(ModelError::EmbedNotWired),
        }
    }

    pub fn embed_from_idx_batch(&self, batch: usize) -> (r: Result<Call, ModelError>)
        ensures
            r == self.embed_batch_call(batch),
    {
        match self.embd_dtype {
            DType::F16 | DType::Q4K => Ok(
                Eng::copy_scale_indexed_batch_wd(
                    self.cfg.hidden,
                    batch,
                    self.embed_scale,
                    self.embd_dtype,
                    Buf::TokenEmbd,
                    Buf::ChunkTok,
                    Buf::X,
                ),
            ),
            _ => Err(ModelError::EmbedNotWired),
        }
    }

    /// The steps that bring the per-layer row of a token to the device: by its number, or from the
    /// host through one of two stages.
    pub open spec fn ple_steps(self, acc: Seq<Step>, token: u32, src: usize, pos: usize) -> Seq<
        Step,
    > {
        let n = self.cfg.ple() as usize;
        if self.ple_packed {
            acc.push(
                Step::Run {
                    call: Eng::copy_scale_indexed_wd(
                        n,
                        self.ple_scale,
                        DType::Q5K,
                        Buf::PleEmbd,
                        Buf::TokIdx { i: src },
                        Buf::PleTok,
                    ),
                },
            )
        } else {
            let stage = (pos % 2) as usize;
            acc.push(Step::WaitInflight { max: 1 }).push(Step::WritePleRow { stage, token }).push(
                Step::Run {
                    call: Eng::copy_scale_wd(
                        n,
                        ONE,
                        DType::F16,
                        Buf::PleStage { i: stage },
                        0,
                        Buf::PleTok,
                        0,
                    ),
                },
            )
        }
    }

    pub fn load_ple_token(&self, out: &mut Vec<Step>, token: u32, src: usize)
        requires
            self.cfg.ple() <= usize::MAX,
        ensures
            final(out)@ == self.ple_steps(old(out)@, token, src, self.pos),
    {
        let n: usize = self.cfg.ple_total();
        if self.ple_packed {
            out.push(
                Step::Run {
                    call: Eng::copy_scale_indexed_wd(
                        n,
                        self.ple_scale,
                        DType::Q5K,
                        Buf::PleEmbd,
                        Buf::TokIdx { i: src },
                        Buf::PleTok,
                    ),
                },
            );
        } else {
            let stage: usize = self.pos % 2;
            out.push(Step::WaitInflight { max: 1 });
            out.push(Step::WritePleRow { stage, token });
            out.push(
                Step::Run {
                    call: Eng::copy_scale_wd(
                        n,
                        ONE,
                        DType::F16,
                        Buf::PleStage { i: stage },
                        0,
                        Buf::PleTok,
                        0,
                    ),
                },
            );
        }
    }

    /// The per-layer context of a token: its projection, normalised layer by layer, and the
    /// per-layer row, averaged.
    pub open spec fn prepass_steps(self, acc: Seq<Step>) -> Seq<Step> {
        let n = self.cfg.ple() as usize;
        acc.push(
            Step::Run {
                call: Eng::matvec_wd(
                    n,
                    self.cfg.hidden,
                    DType::Q4K,
                    Buf::PleModelProj,
                    Buf::X,
                    Buf::PleTmp,
                ),
            },
        ).push(
            Step::Run {
                call: Eng::rmsnorm_per_head(
                    self.cfg.n_layers,
                    self.cfg.ple_dim,
                    self.cfg.rms_eps,
                    Buf::PleTmp,
                    Buf::PleProjNorm,
                    Buf::PleCtx,
                ),
            },
        ).push(
            Step::Run {
                call: Eng::add_scale(n, FRAC_1_SQRT_2, Buf::PleCtx, Buf::PleTok, Buf::PleCtx),
            },
        )
    }

    pub fn ple_prepass(&self, out: &mut Vec<Step>)
        requires
            self.cfg.ple() <= usize::MAX,
        ensures
            final(out)@ == self.prepass_steps(old(out)@),
    {
        let n: usize = self.cfg.ple_total();
        out.push(
            Step::Run {
                call: Eng::matvec_wd(
                    n,
                    self.cfg.hidden,
                    DType::Q4K,
                    Buf::PleModelProj,
                    Buf::X,
                    Buf::PleTmp,
                ),
            },
        );
        out.push(
            Step::Run {
                call: Eng::rmsnorm_per_head(
                    self.cfg.n_layers,
                    self.cfg.ple_dim,
                    self.cfg.rms_eps,
                    Buf::PleTmp,
                    Buf::PleProjNorm,
                    Buf::PleCtx,
                ),
            },
        );
        out.push(
            Step::Run {
                call: Eng::add_scale(n, FRAC_1_SQRT_2, Buf::PleCtx, Buf::PleTok, Buf::PleCtx),
            },
        );
    }

    /// Queries, keys and values of the normalised activations: in one launch where all three
    /// weights are packed as Q4_K or none is packed, else one by one.
    pub open spec fn qkv_steps(self, acc: Seq<Step>, layer: usize) -> Seq<Step> {
        let m = meta_of(self.cfg, layer as int);
        let t = self.types@[layer as int];
        let h = self.cfg.hidden;
        let eps = self.cfg.rms_eps;
        let norm = Buf::AttnNorm { layer };
        let wq = Buf::Weight { layer, which: LayerWeight::AttnQ };
        let wk = Buf::Weight { layer, which: LayerWeight::AttnK };
        let wv = Buf::Weight { layer, which: LayerWeight::AttnV };
        let normed = acc.push(Step::Run { call: Eng::rmsnorm(h, eps, Buf::X, norm, Buf::X2) });
        if t.q == DType::Q4K && t.k == DType::Q4K && t.v == DType::Q4K {
            normed.push(
                Step::Run {
                    call: Eng::matvec_qkv_wd(
                        m.q_rows,
                        m.kv_rows,
                        h,
                        t.q,
                        wq,
                        wk,
                        wv,
                        Buf::X2,
                        Buf::TmpQ,
                        Buf::TmpK,
                        Buf::TmpV,
                    ),
                },
            )
        } else if t.q == t.k && t.k == t.v && !is_packed(t.q) {
            acc.push(
                Step::Run {
                    call: Eng::rmsnorm_matvec_qkv_wd(
                        m.q_rows,
                        m.kv_rows,
                        h,
                        eps,
                        t.q,
                        Buf::X,
                        norm,
                        wq,
                        wk,
                        wv,
                        Buf::TmpQ,
                        Buf::TmpK,
                        Buf::TmpV,
                    ),
                },
            )
        } else {
            normed.push(
                Step::Run { call: Eng::matvec_wd(m.q_rows, h, t.q, wq, Buf::X2, Buf::TmpQ) },
            ).push(
                Step::Run { call: Eng::matvec_wd(m.kv_rows, h, t.k, wk, Buf::X2, Buf::TmpK) },
            ).push(Step::Run { call: Eng::matvec_wd(m.kv_rows, h, t.v, wv, Buf::X2, Buf::TmpV) })
        }
    }

    pub fn rmsnorm_matvec_qkv_w(&self, out: &mut Vec<Step>, layer: usize)
        requires
            self.wf(),
            layer < self.cfg.n_layers,
        ensures
            final(out)@ == self.qkv_steps(old(out)@, layer),
    {
        let m = self.layers[layer];
        let t = self.types[layer];
        let h: usize = self.cfg.hidden;
        let eps: u32 = self.cfg.rms_eps;
        let norm = Buf::AttnNorm { layer };
        let wq = Buf::Weight { layer, which: LayerWeight::AttnQ };
        let wk = Buf::Weight { layer, which: LayerWeight::AttnK };
        let wv = Buf::Weight { layer, which: LayerWeight::AttnV };
        if t.q == t.k && t.k == t.v && t.q == DType::Q4K {
            out.push(Step::Run { call: Eng::rmsnorm(h, eps, Buf::X, norm, Buf::X2) });
            out.push(
                Step::Run {
                    call: Eng::matvec_qkv_wd(
                        m.q_rows,
                        m.kv_rows,
                        h,
                        t.q,
                        wq,
                        wk,
                        wv,
                        Buf::X2,
                        Buf::TmpQ,
                        Buf::TmpK,
                        Buf::TmpV,
                    ),
                },
            );
        } else if t.q == t.k && t.k == t.v && !is_packed(t.q) {
            out.push(
                Step::Run {
                    call: Eng::rmsnorm_matvec_qkv_wd(
                        m.q_rows,
                        m.kv_rows,
                        h,
                        eps,
                        t.q,
                        Buf::X,
                        norm,
                        wq,
                        wk,
                        wv,
                        Buf::TmpQ,
                        Buf::TmpK,
                        Buf::TmpV,
                    ),
                },
            );
        } else {
            out.push(Step::Run { call: Eng::rmsnorm(h, eps, Buf::X, norm, Buf::X2) });
            out.push(
                Step::Run { call: Eng::matvec_wd(m.q_rows, h, t.q, wq, Buf::X2, Buf::TmpQ) },
            );
            out.push(
                Step::Run { call: Eng::matvec_wd(m.kv_rows, h, t.k, wk, Buf::X2, Buf::TmpK) },
            );
            out.push(
                Step::Run { call: Eng::matvec_wd(m.kv_rows, h, t.v, wv, Buf::X2, Buf::TmpV) },
            );
        }
    }

    /// A matrix times the normalised activations: packed weights after the norm, others with it.
    pub open spec fn normed_matvec_steps(
        self,
        acc: Seq<Step>,
        rows: usize,
        weight: DType,
        w: Buf,
        norm: Buf,
        y: Buf,
    ) -> Seq<Step> {
        let h = self.cfg.hidden;
        let eps = self.cfg.rms_eps;
        if is_packed(weight) {
            acc.push(Step::Run { call: Eng::rmsnorm(h, eps, Buf::X, norm, Buf::X2) }).push(
                Step::Run { call: Eng::matvec_wd(rows, h, weight, w, Buf::X2, y) },
            )
        } else {
            acc.push(
                Step::Run {
                    call: Eng::rmsnorm_matvec_wd(rows, h, eps, weight, Buf::X, norm, w, y),
                },
            )
        }
    }

    pub fn rmsnorm_matvec_w(
        &self,
        out: &mut Vec<Step>,
        rows: usize,
        weight: DType,
        w: Buf,
        norm: Buf,
        y: Buf,
    )
        ensures
            final(out)@ == self.normed_matvec_steps(old(out)@, rows, weight, w, norm, y),
    {
        let h: usize = self.cfg.hidden;
        let eps: u32 = self.cfg.rms_eps;
        if is_packed(weight) {
            out.push(Step::Run { call: Eng::rmsnorm(h, eps, Buf::X, norm, Buf::X2) });
            out.push(Step::Run { call: Eng::matvec_wd(rows, h, weight, w, Buf::X2, y) });
        } else {
            out.push(
                Step::Run {
                    call: Eng::rmsnorm_matvec_wd(rows, h, eps, weight, Buf::X, norm, w, y),
                },
            );
        }
    }
}

} // verus!
