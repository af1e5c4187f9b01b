//! The plan of a chunk of prompt tokens, all positions at once, and of a whole prompt.

use vstd::prelude::*;

use crate::gemma::forward::lemma_mul_le;
use crate::gemma::model::{
    meta_of, GemmaPrimModel, ModelError, Step, FRAC_1_SQRT_2, PREFILL_CHUNK_SIZE,
};
use crate::ir::dtype::{q40_row_bytes, DType};
use crate::kernels::buffer::{Buf, LayerWeight};
use crate::kernels::call::Eng;

verus! {

/// The positions that attention of a chunk is set up for: those of its last token, and the window
/// that every token of it keeps to.
pub open spec fn chunk_window(swa: bool, window: usize, max_seq: usize, len: usize) -> (u32, u32) {
    if swa {
        (
            (if len < window {
                len
            } else {
                window
            }) as u32,
            window as u32,
        )
    } else {
        (len as u32, max_seq as u32)
    }
}

/// Whether the rows of all these tokens can be addressed in the token embeddings.
pub open spec fn tokens_fit(m: GemmaPrimModel, tokens: Seq<u32>) -> bool {
    forall|i: int| 0 <= i < tokens.len() ==> m.token_fits(#[trigger] tokens[i])
}

impl GemmaPrimModel {
    /// The steps that write the numbers of the first `n` tokens of a chunk.
    pub open spec fn told_steps(self, acc: Seq<Step>, tokens: Seq<u32>, n: nat) -> Seq<Step>
        decreases n,
    {
        if n == 0 {
            acc
        } else {
            let i = (n - 1) as usize;
            self.told_steps(acc, tokens, (n - 1) as nat).push(
                Step::WriteChunkToken { i, token: tokens[n - 1] },
            )
        }
    }

    /// The steps that bring the first `n` tokens of a chunk to the device one by one: each is
    /// embedded at the front and copied to its row.
    pub open spec fn singly_steps(
        self,
        acc: Seq<Step>,
        tokens: Seq<u32>,
        n: nat,
        pos: usize,
        src: usize,
    ) -> Result<Seq<Step>, ModelError>
        decreases n,
    {
        if n == 0 {
            Ok(acc)
        } else {
            let h = self.cfg.hidden;
            let p = self.cfg.ple() as usize;
            match self.singly_steps(acc, tokens, (n - 1) as nat, pos, src) {
                Err(e) => Err(e),
                Ok(s) => match self.embed_call(tokens[n - 1]) {
                    Err(e) => Err(e),
                    Ok(call) => Ok(
                        self.ple_steps(
                            s.push(Step::Run { call }).push(
                                Step::Run {
                                    call: Eng::copy_slice(
                                        h,
                                        Buf::X,
                                        0,
                                        Buf::X,
                                        ((n - 1) * h) as usize,
                                    ),
                                },
                            ),
                            tokens[n - 1],
                            src,
                            pos,
                        ).push(
                            Step::Run {
                                call: Eng::copy_slice(
                                    p,
                                    Buf::PleTok,
                                    0,
                                    Buf::PleTok,
                                    ((n - 1) * p) as usize,
                                ),
                            },
                        ),
                    ),
                },
            }
        }
    }

    /// The per-layer contexts of a chunk.
    pub open spec fn prepass_batch_steps(self, acc: Seq<Step>, batch: usize) -> Seq<Step> {
        let n = self.cfg.ple() as usize;
        acc.push(
            Step::Run {
                call: Eng::matvec_batch(
                    n,
                    self.cfg.hidden,
                    batch,
                    DType::Q4K,
                    Buf::PleModelProj,
                    Buf::X,
                    Buf::PleTmp,
                ),
            },
        ).push(
            Step::Run {
                call: Eng::rmsnorm_per_head(
                    (batch * self.cfg.n_layers) as usize,
                    self.cfg.ple_dim,
                    self.cfg.rms_eps,
                    Buf::PleTmp,
                    Buf::PleProjNorm,
                    Buf::PleCtx,
                ),
            },
        ).push(
            Step::Run {
                call: Eng::add_scale(
                    (batch * n) as usize,
                    FRAC_1_SQRT_2,
                    Buf::PleCtx,
                    Buf::PleTok,
                    Buf::PleCtx,
                ),
            },
        )
    }

    pub fn ple_prepass_batch(&self, out: &mut Vec<Step>, batch: usize)
        requires
            self.wf(),
            batch <= PREFILL_CHUNK_SIZE,
        ensures
            final(out)@ == self.prepass_batch_steps(old(out)@, batch),
    {
        proof {
            self.lemma_ple();
            lemma_mul_le(
                batch as int,
                self.cfg.n_layers as int,
                PREFILL_CHUNK_SIZE as int,
                self.cfg.n_layers as int,
            );
            lemma_mul_le(
                batch as int,
                self.cfg.ple(),
                PREFILL_CHUNK_SIZE as int,
                self.cfg.ple(),
            );
        }
        let n: usize = self.cfg.ple_total();
        out.push(
            Step::Run {
                call: Eng::matvec_batch(
                    n,
                    self.cfg.hidden,
                    batch,
                    DType::Q4K,
                    Buf::PleModelProj,
                    Buf::X,
                    Buf::PleTmp,
                ),
            },
        );
        out.push(
            Step::Run {
                call: Eng::rmsnorm_per_head(
                    batch * self.cfg.n_layers,
                    self.cfg.ple_dim,
                    self.cfg.rms_eps,
                    Buf::PleTmp,
                    Buf::PleProjNorm,
                    Buf::PleCtx,
                ),
            },
        );
        out.push(
            Step::Run {
                call: Eng::add_scale(
                    batch * n,
                    FRAC_1_SQRT_2,
                    Buf::PleCtx,
                    Buf::PleTok,
                    Buf::PleCtx,
                ),
            },
        );
    }

    /// The width of the per-layer embeddings is a machine integer.
    pub proof fn lemma_ple(self)
        requires
            self.cfg.fits(self.max_seq),
        ensures
            0 <= self.cfg.ple() <= usize::MAX,
    {
        let p = self.cfg.ple();
        assert(p >= 0) by (nonlinear_arith)
            requires
                p == self.cfg.n_layers * self.cfg.ple_dim,
        ;
    }

    /// Attention of a layer for a chunk that starts at `pos`.
    pub open spec fn chunk_attention_steps(
        self,
        acc: Seq<Step>,
        layer: usize,
        pos: usize,
        batch: usize,
    ) -> Seq<Step> {
        let l = layer as int;
        let m = meta_of(self.cfg, l);
        let t = self.types@[l];
        let h = self.cfg.hidden;
        let eps = self.cfg.rms_eps;
        let src = self.cfg.source(l) as usize;
        let rope_off = (pos * m.hd) as usize;
        let (n, window) = chunk_window(
            self.cfg.swa(l),
            self.cfg.sliding_window,
            self.max_seq,
            (pos + batch) as usize,
        );
        let queried = acc.push(
            Step::Run {
                call: Eng::rmsnorm_rows(h, batch, eps, Buf::X, Buf::AttnNorm { layer }, Buf::X2),
            },
        ).push(
            Step::Run {
                call: Eng::matvec_batch(
                    m.q_rows,
                    h,
                    batch,
                    t.q,
                    Buf::Weight { layer, which: LayerWeight::AttnQ },
                    Buf::X2,
                    Buf::TmpQ,
                ),
            },
        );
        let kept = if layer < self.cfg.owners() {
            queried.push(
                Step::Run {
                    call: Eng::matvec_batch(
                        m.kv_rows,
                        h,
                        batch,
                        t.k,
                        Buf::Weight { layer, which: LayerWeight::AttnK },
                        Buf::X2,
                        Buf::TmpK,
                    ),
                },
            ).push(
                Step::Run {
                    call: Eng::matvec_batch(
                        m.kv_rows,
                        h,
                        batch,
                        t.v,
                        Buf::Weight { layer, which: LayerWeight::AttnV },
                        Buf::X2,
                        Buf::TmpV,
                    ),
                },
            ).push(
                Step::Run {
                    call: Eng::rmsnorm_per_head_qkv_q40_batch(
                        self.cfg.n_heads,
                        self.cfg.n_kv,
                        m.hd,
                        batch,
                        eps,
                        Buf::TmpQ,
                        Buf::QNorm { layer },
                        self.rope_table(l),
                        rope_off,
                        Buf::TmpK,
                        Buf::KNorm { layer },
                        Buf::TmpV,
                        Buf::TmpQ,
                        Buf::KvK { layer: src },
                        Buf::KvV { layer: src },
                        (pos * (m.hd / 32 * 18)) as usize,
                    ),
                },
            )
        } else {
            queried.push(
                Step::Run {
                    call: Eng::rmsnorm_per_head_rope_batch(
                        self.cfg.n_heads,
                        m.hd,
                        batch,
                        eps,
                        Buf::TmpQ,
                        Buf::QNorm { layer },
                        self.rope_table(l),
                        rope_off,
                        Buf::TmpQ,
                    ),
                },
            )
        };
        kept.push(
            Step::WriteMeta { layer, tlen: (pos + 1) as u32, start: 0, window },
        ).push(
            Step::Run {
                call: Eng::sdpa_hybrid_kv_batch(
                    self.cfg.n_heads,
                    batch,
                    m.hd,
                    self.max_seq,
                    n,
                    DType::Q40,
                    Buf::TmpQ,
                    Buf::KvK { layer: src },
                    Buf::KvV { layer: src },
                    Buf::Meta { layer },
                    Buf::TmpAttnMwg,
                    Buf::TmpO,
                ),
            },
        ).push(
            Step::Run {
                call: Eng::matvec_batch(
                    h,
                    m.o_in,
                    batch,
                    t.output,
                    Buf::Weight { layer, which: LayerWeight::AttnOutput },
                    Buf::TmpO,
                    Buf::X2,
                ),
            },
        )
    }

    pub fn chunk_attention(&self, out: &mut Vec<Step>, layer: usize, batch: usize)
        requires
            self.wf(),
            layer < self.cfg.n_layers,
            self.pos + batch <= self.max_seq,
            batch > 0,
        ensures
            final(out)@ == self.chunk_attention_steps(old(out)@, layer, self.pos, batch),
    {
        let m = self.layers[layer];
        let t = self.types[layer];
        let h: usize = self.cfg.hidden;
        let eps: u32 = self.cfg.rms_eps;
        let swa: bool = self.cfg.is_swa(layer);
        let src: usize = self.cfg.kv_source(layer);
        let rope = if swa {
            Buf::RopeSwa
        } else {
            Buf::RopeFull
        };
        proof {
            self.cfg.lemma_layer_fits(self.max_seq, layer as int);
            lemma_mul_le(self.pos as int, m.hd as int, self.max_seq as int, m.hd as int);
        }
        let rope_off: usize = self.pos * m.hd;
        out.push(
            Step::Run {
                call: Eng::rmsnorm_rows(h, batch, eps, Buf::X, Buf::AttnNorm { layer }, Buf::X2),
            },
        );
        out.push(
            Step::Run {
                call: Eng::matvec_batch(
                    m.q_rows,
                    h,
                    batch,
                    t.q,
                    Buf::Weight { layer, which: LayerWeight::AttnQ },
                    Buf::X2,
                    Buf::TmpQ,
                ),
            },
        );
        if self.cfg.owns_kv(layer) {
            let row: usize = q40_row_bytes(m.hd);
            proof {
                lemma_mul_le(self.pos as int, row as int, self.max_seq as int, m.hd as int);
            }
            let kv_off: usize = self.pos * row;
            out.push(
                Step::Run {
                    call: Eng::matvec_batch(
                        m.kv_rows,
                        h,
                        batch,
                        t.k,
                        Buf::Weight { layer, which: LayerWeight::AttnK },
                        Buf::X2,
                        Buf::TmpK,
                    ),
                },
            );
            out.push(
                Step::Run {
                    call: Eng::matvec_batch(
                        m.kv_rows,
                        h,
                        batch,
                        t.v,
                        Buf::Weight { layer, which: LayerWeight::AttnV },
                        Buf::X2,
                        Buf::TmpV,
                    ),
                },
            );
            out.push(
                Step::Run {
                    call: Eng::rmsnorm_per_head_qkv_q40_batch(
                        self.cfg.n_heads,
                        self.cfg.n_kv,
                        m.hd,
                        batch,
                        eps,
                        Buf::TmpQ,
                        Buf::QNorm { layer },
                        rope,
                        rope_off,
                        Buf::TmpK,
                        Buf::KNorm { layer },
                        Buf::TmpV,
                        Buf::TmpQ,
                        Buf::KvK { layer: src },
                        Buf::KvV { layer: src },
                        kv_off,
                    ),
                },
            );
        } else {
            out.push(
                Step::Run {
                    call: Eng::rmsnorm_per_head_rope_batch(
                        self.cfg.n_heads,
                        m.hd,
                        batch,
                        eps,
                        Buf::TmpQ,
                        Buf::QNorm { layer },
                        rope,
                        rope_off,
                        Buf::TmpQ,
                    ),
                },
            );
        }
        let len: usize = self.pos + batch;
        let window: usize = self.cfg.sliding_window;
        let (n, win): (u32, u32) = if swa {
            (
                if len < window {
                    len as u32
                } else {
                    window as u32
                },
                window as u32,
            )
        } else {
            (len as u32, self.max_seq as u32)
        };
        out.push(
            Step::WriteMeta { layer, tlen: (self.pos + 1) as u32, start: 0, window: win },
        );
        out.push(
            Step::Run {
                call: Eng::sdpa_hybrid_kv_batch(
                    self.cfg.n_heads,
                    batch,
                    m.hd,
                    self.max_seq,
                    n,
                    DType::Q40,
                    Buf::TmpQ,
                    Buf::KvK { layer: src },
                    Buf::KvV { layer: src },
                    Buf::Meta { layer },
                    Buf::TmpAttnMwg,
                    Buf::TmpO,
                ),
            },
        );
        out.push(
            Step::Run {
                call: Eng::matvec_batch(
                    h,
                    m.o_in,
                    batch,
                    t.output,
                    Buf::Weight { layer, which: LayerWeight::AttnOutput },
                    Buf::TmpO,
                    Buf::X2,
                ),
            },
        );
    }

    /// The feed-forward half of a layer and its per-layer embedding, for a chunk.
    pub open spec fn chunk_mlp_steps(
        self,
        acc: Seq<Step>,
        layer: usize,
        batch: usize,
    ) -> Seq<Step> {
        let m = meta_of(self.cfg, layer as int);
        let t = self.types@[layer as int];
        let h = self.cfg.hidden;
        let eps = self.cfg.rms_eps;
        let d = self.cfg.ple_dim;
        acc.push(
            Step::Run {
                call: Eng::rmsnorm_add_then_rmsnorm_rows(
                    h,
                    batch,
                    eps,
                    Buf::X2,
                    Buf::PostAttnNorm { layer },
                    Buf::X,
                    Buf::FfnNorm { layer },
                    Buf::X,
                    Buf::X2,
                ),
            },
        ).push(
            Step::Run {
                call: Eng::matvec_batch(
                    m.ffn_inter,
                    h,
                    batch,
                    t.gate,
                    Buf::Weight { layer, which: LayerWeight::FfnGate },
                    Buf::X2,
                    Buf::TmpFf1,
                ),
            },
        ).push(
            Step::Run {
                call: Eng::matvec_batch(
                    m.ffn_inter,
                    h,
                    batch,
                    t.up,
                    Buf::Weight { layer, which: LayerWeight::FfnUp },
                    Buf::X2,
                    Buf::TmpFf2,
                ),
            },
        ).push(
            Step::Run {
                call: Eng::gelu_mul(
                    (batch * m.ffn_inter) as usize,
                    Buf::TmpFf1,
                    Buf::TmpFf2,
                    Buf::TmpFf3,
                ),
            },
        ).push(
            Step::Run {
                call: Eng::matvec_batch(
                    h,
                    m.ffn_inter,
                    batch,
                    t.down,
                    Buf::Weight { layer, which: LayerWeight::FfnDown },
                    Buf::TmpFf3,
                    Buf::X2,
                ),
            },
        ).push(
            Step::Run {
                call: Eng::rmsnorm_add_rows(
                    h,
                    batch,
                    eps,
                    Buf::X2,
                    Buf::PostFfwNorm { layer },
                    Buf::X,
                    Buf::X,
                ),
            },
        ).push(
            Step::Run {
                call: Eng::matvec_batch(
                    d,
                    h,
                    batch,
                    t.inp_gate,
                    Buf::Weight { layer, which: LayerWeight::InpGate },
                    Buf::X,
                    Buf::PleU,
                ),
            },
        ).push(
            Step::Run {
                call: Eng::gelu_mul_strided(
                    d,
                    batch,
                    Buf::PleU,
                    Buf::PleCtx,
                    (layer * d) as usize,
                    self.cfg.ple() as usize,
                    Buf::PleU,
                ),
            },
        ).push(
            Step::Run {
                call: Eng::matvec_batch(
                    h,
                    d,
                    batch,
                    t.proj,
                    Buf::Weight { layer, which: LayerWeight::Proj },
                    Buf::PleU,
                    Buf::PleProj,
                ),
            },
        ).push(
            Step::Run {
                call: Eng::rmsnorm_add_scale_rows(
                    h,
                    batch,
                    eps,
                    self.layer_scales@[layer as int],
                    Buf::PleProj,
                    Buf::PostNorm { layer },
                    Buf::X,
                    Buf::X,
                ),
            },
        )
    }

    pub fn chunk_mlp(&self, out: &mut Vec<Step>, layer: usize, batch: usize)
        requires
            self.wf(),
            layer < self.cfg.n_layers,
            batch <= PREFILL_CHUNK_SIZE,
        ensures
            final(out)@ == self.chunk_mlp_steps(old(out)@, layer, batch),
    {
        let m = self.layers[layer];
        let t = self.types[layer];
        let h: usize = self.cfg.hidden;
        let eps: u32 = self.cfg.rms_eps;
        let d: usize = self.cfg.ple_dim;
        proof {
            self.lemma_ple();
            lemma_mul_le(layer as int, d as int, self.cfg.n_layers as int, d as int);
            lemma_mul_le(
                batch as int,
                m.ffn_inter as int,
                PREFILL_CHUNK_SIZE as int,
                m.ffn_inter as int,
            );
            self.cfg.lemma_layer_fits(self.max_seq, layer as int);
        }
        out.push(
            Step::Run {
                call: Eng::rmsnorm_add_then_rmsnorm_rows(
                    h,
                    batch,
                    eps,
                    Buf::X2,
                    Buf::PostAttnNorm { layer },
                    Buf::X,
                    Buf::FfnNorm { layer },
                    Buf::X,
                    Buf::X2,
                ),
            },
        );
        out.push(
            Step::Run {
                call: Eng::matvec_batch(
                    m.ffn_inter,
                    h,
                    batch,
                    t.gate,
                    Buf::Weight { layer, which: LayerWeight::FfnGate },
                    Buf::X2,
                    Buf::TmpFf1,
                ),
            },
        );
        out.push(
            Step::Run {
                call: Eng::matvec_batch(
                    m.ffn_inter,
                    h,
                    batch,
                    t.up,
                    Buf::Weight { layer, which: LayerWeight::FfnUp },
                    Buf::X2,
                    Buf::TmpFf2,
                ),
            },
        );
        out.push(
            Step::Run {
                call: Eng::gelu_mul(
                    batch * m.ffn_inter,
                    Buf::TmpFf1,
                    Buf::TmpFf2,
                    Buf::TmpFf3,
                ),
            },
        );
        out.push(
            Step::Run {
                call: Eng::matvec_batch(
                    h,
                    m.ffn_inter,
                    batch,
                    t.down,
                    Buf::Weight { layer, which: LayerWeight::FfnDown },
                    Buf::TmpFf3,
                    Buf::X2,
                ),
            },
        );
        out.push(
            Step::Run {
                call: Eng::rmsnorm_add_rows(
                    h,
                    batch,
                    eps,
                    Buf::X2,
                    Buf::PostFfwNorm { layer },
                    Buf::X,
                    Buf::X,
                ),
            },
        );
        out.push(
            Step::Run {
                call: Eng::matvec_batch(
                    d,
                    h,
                    batch,
                    t.inp_gate,
                    Buf::Weight { layer, which: LayerWeight::InpGate },
                    Buf::X,
                    Buf::PleU,
                ),
            },
        );
        out.push(
            Step::Run {
                call: Eng::gelu_mul_strided(
                    d,
                    batch,
                    Buf::PleU,
                    Buf::PleCtx,
                    layer * d,
                    self.cfg.ple_total(),
                    Buf::PleU,
                ),
            },
        );
        out.push(
            Step::Run {
                call: Eng::matvec_batch(
                    h,
                    d,
                    batch,
                    t.proj,
                    Buf::Weight { layer, which: LayerWeight::Proj },
                    Buf::PleU,
                    Buf::PleProj,
                ),
            },
        );
        out.push(
            Step::Run {
                call: Eng::rmsnorm_add_scale_rows(
                    h,
                    batch,
                    eps,
                    self.layer_scales[layer],
                    Buf::PleProj,
                    Buf::PostNorm { layer },
                    Buf::X,
                    Buf::X,
                ),
            },
        );
    }

    /// The first `n` layers, for a chunk that starts at `pos`.
    pub open spec fn chunk_layer_steps(
        self,
        acc: Seq<Step>,
        n: nat,
        pos: usize,
        batch: usize,
    ) -> Seq<Step>
        decreases n,
    {
        if n == 0 {
            acc
        } else {
            let layer = (n - 1) as usize;
            self.chunk_mlp_steps(
                self.chunk_attention_steps(
                    self.chunk_layer_steps(acc, (n - 1) as nat, pos, batch),
                    layer,
                    pos,
                    batch,
                ),
                layer,
                batch,
            )
        }
    }

    /// The steps before the layers of a chunk.
    pub open spec fn chunk_entry_steps(
        self,
        acc: Seq<Step>,
        tokens: Seq<u32>,
        pos: usize,
        src: usize,
    ) -> Result<Seq<Step>, ModelError> {
        let batch = tokens.len() as usize;
        let told = self.told_steps(acc, tokens, tokens.len());
        if self.ple_packed {
            match self.embed_batch_call(batch) {
                Err(e) => Err(e),
                Ok(call) => Ok(
                    told.push(Step::Run { call }).push(
                        Step::Run {
                            call: Eng::copy_scale_indexed_batch_wd(
                                self.cfg.ple() as usize,
                                batch,
                                self.ple_scale,
                                DType::Q5K,
                                Buf::PleEmbd,
                                Buf::ChunkTok,
                                Buf::PleTok,
                            ),
                        },
                    ),
                ),
            }
        } else {
            self.singly_steps(told, tokens, tokens.len(), pos, src)
        }
    }

    /// The plan of a chunk that starts at `pos`, behind the steps of `acc`.
    pub open spec fn chunk_plan(
        self,
        acc: Seq<Step>,
        tokens: Seq<u32>,
        pos: usize,
        src: usize,
    ) -> Result<Seq<Step>, ModelError> {
        let batch = tokens.len() as usize;
        if batch == 0 {
            Ok(acc)
        } else if pos + batch > self.max_seq {
            Err(ModelError::MaxSeq)
        } else {
            match self.chunk_entry_steps(acc, tokens, pos, src) {
                Err(e) => Err(e),
                Ok(s) => Ok(
                    self.chunk_layer_steps(
                        self.prepass_batch_steps(s, batch),
                        self.cfg.n_layers as nat,
                        pos,
                        batch,
                    ).push(Step::Synchronize),
                ),
            }
        }
    }

    fn enter_chunk(&self, out: &mut Vec<Step>, tokens: &Vec<u32>) -> (r: Result<(), ModelError>)
        requires
            self.wf(),
            tokens@.len() <= PREFILL_CHUNK_SIZE,
            tokens_fit(*self, tokens@),
        ensures
            match self.chunk_entry_steps(old(out)@, tokens@, self.pos, self.decode_src) {
                Err(e) => r == Err::<(), ModelError>(e),
                Ok(s) => r == Ok::<(), ModelError>(()) && final(out)@ == s,
            },
    {
        proof {
            self.lemma_ple();
        }
        let ghost acc = out@;
        let mut i: usize = 0;
        while i < tokens.len()
            invariant
                i <= tokens@.len(),
                out@ == self.told_steps(acc, tokens@, i as nat),
            decreases tokens@.len() - i,
        {
            out.push(Step::WriteChunkToken { i, token: tokens[i] });
            i += 1;
        }
        let batch: usize = tokens.len();
        if self.ple_packed {
            let call = self.embed_from_idx_batch(batch)?;
            out.push(Step::Run { call });
            out.push(
                Step::Run {
                    call: Eng::copy_scale_indexed_batch_wd(
                        self.cfg.ple_total(),
                        batch,
                        self.ple_scale,
                        DType::Q5K,
                        Buf::PleEmbd,
                        Buf::ChunkTok,
                        Buf::PleTok,
                    ),
                },
            );
            return Ok(());
        }
        let ghost told = out@;
        let h: usize = self.cfg.hidden;
        let p: usize = self.cfg.ple_total();
        let mut k: usize = 0;
        while k < tokens.len()
            invariant
                k <= tokens@.len(),
                tokens@.len() <= PREFILL_CHUNK_SIZE,
                batch == tokens@.len(),
                self.wf(),
                !self.ple_packed,
                tokens_fit(*self, tokens@),
                h == self.cfg.hidden,
                p == self.cfg.ple(),
                told == self.told_steps(acc, tokens@, tokens@.len()),
                acc == old(out)@,
                self.singly_steps(told, tokens@, k as nat, self.pos, self.decode_src) == Ok::<
                    Seq<Step>,
                    ModelError,
                >(out@),
            decreases tokens@.len() - k,
        {
            let token: u32 = tokens[k];
            match self.embed_token(token) {
                Err(e) => {
                    proof {
                        self.lemma_singly_err(
                            told,
                            tokens@,
                            (k + 1) as nat,
                            tokens@.len(),
                            self.pos,
                            self.decode_src,
                        );
                    }
                    return Err(e);
                },
                Ok(call) => {
                    out.push(Step::Run { call });
                },
            }
            proof {
                lemma_mul_le(k as int, h as int, PREFILL_CHUNK_SIZE as int, h as int);
                lemma_mul_le(k as int, p as int, PREFILL_CHUNK_SIZE as int, p as int);
            }
            out.push(Step::Run { call: Eng::copy_slice(h, Buf::X, 0, Buf::X, k * h) });
            self.load_ple_token(out, token, self.decode_src);
            out.push(Step::Run { call: Eng::copy_slice(p, Buf::PleTok, 0, Buf::PleTok, k * p) });
            k += 1;
        }
        Ok(())
    }

    proof fn lemma_singly_err(
        self,
        acc: Seq<Step>,
        tokens: Seq<u32>,
        k: nat,
        n: nat,
        pos: usize,
        src: usize,
    )
        requires
            k <= n,
            self.singly_steps(acc, tokens, k, pos, src) is Err,
        ensures
            self.singly_steps(acc, tokens, n, pos, src) == self.singly_steps(
                acc,
                tokens,
                k,
                pos,
                src,
            ),
        decreases n - k,
    {
        if k < n {
            self.lemma_singly_err(acc, tokens, k, (n - 1) as nat, pos, src);
        }
    }

    /// Appends the plan of a chunk. The model moves on by the length of the chunk.
    pub fn forward_prefill_chunk(&mut self, out: &mut Vec<Step>, tokens: &Vec<u32>) -> (r: Result<
        (),
        ModelError,
    >)
        requires
            old(self).wf(),
            tokens@.len() <= PREFILL_CHUNK_SIZE,
            tokens_fit(*old(self), tokens@),
        ensures
            final(self).wf(),
            match old(self).chunk_plan(
                old(out)@,
                tokens@,
                old(self).pos,
                old(self).decode_src,
            ) {
                Err(e) => r == Err::<(), ModelError>(e) && *final(self) == *old(self),
                Ok(s) => {
                    &&& r == Ok::<(), ModelError>(())
                    &&& final(out)@ == s
                    &&& *final(self) == (GemmaPrimModel {
                        pos: (old(self).pos + tokens@.len()) as usize,
                        ..*old(self)
                    })
                },
            },
    {
        let batch: usize = tokens.len();
        if batch == 0 {
            return Ok(());
        }
        if self.pos > self.max_seq || batch > self.max_seq - self.pos {
            return Err(ModelError::MaxSeq);
        }
        self.enter_chunk(out, tokens)?;
        self.ple_prepass_batch(out, batch);
        let ghost entered = out@;
        let mut layer: usize = 0;
        while layer < self.cfg.n_layers
            invariant
                layer <= self.cfg.n_layers,
                self.wf(),
                0 < batch <= PREFILL_CHUNK_SIZE,
                self.pos + batch <= self.max_seq,
                out@ == self.chunk_layer_steps(entered, layer as nat, self.pos, batch),
            decreases self.cfg.n_layers - layer,
        {
            self.chunk_attention(out, layer, batch);
            self.chunk_mlp(out, layer, batch);
            layer += 1;
        }
        self.pos = self.pos + batch;
        out.push(Step::Synchronize);
        Ok(())
    }
}

} // verus!
