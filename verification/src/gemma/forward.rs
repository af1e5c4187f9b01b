//! The plan of one token: attention, feed-forward and per-layer embedding of every layer, and the
//! choice of the next token.

use vstd::prelude::*;

use crate::gemma::model::{is_packed, meta_of, samples, GemmaPrimModel, ModelError, Outcome, Step};
use crate::ir::dtype::{q40_row_bytes, DType};
use crate::kernels::buffer::{Buf, LayerWeight};
use crate::kernels::call::Eng;

verus! {

/// The positions that a token at `pos` attends to: how many, and from where on. A layer with a
/// sliding window looks at the last `window` positions, the token's own included.
pub open spec fn attended(swa: bool, window: usize, pos: usize) -> (u32, u32) {
    let len = pos + 1;
    if swa && len > window {
        (window as u32, (len - window) as u32)
    } else {
        (len as u32, 0)
    }
}

pub fn attention_span(swa: bool, window: usize, pos: usize) -> (r: (u32, u32))
    requires
        pos < u32::MAX,
    ensures
        r == attended(swa, window, pos),
{
    let len: usize = pos + 1;
    if swa {
        let start: usize = if len > window {
            len - window
        } else {
            0
        };
        ((len - start) as u32, start as u32)
    } else {
        (len as u32, 0)
    }
}

/// A token always attends to itself, to nothing behind it, and to no more than the window.
pub proof fn lemma_attended(swa: bool, window: usize, pos: usize)
    requires
        pos < u32::MAX,
    ensures
        ({
            let (n, start) = attended(swa, window, pos);
            &&& n + start == pos + 1
            &&& swa ==> n <= window
            &&& !swa ==> start == 0
            &&& window > 0 ==> n > 0
        }),
{
}

/// A bound on a product by its second factor.
pub proof fn lemma_mul_le(a: int, b: int, c: int, d: int)
    requires
        0 <= a <= c,
        0 <= b <= d,
    ensures
        a * b <= c * d,
        0 <= a * b,
{
    assert(a * b <= c * d && 0 <= a * b) by (nonlinear_arith)
        requires
            0 <= a <= c,
            0 <= b <= d,
    ;
}

impl GemmaPrimModel {
    /// The rotation table of a layer.
    pub open spec fn rope_table(self, layer: int) -> Buf {
        if self.cfg.swa(layer) {
            Buf::RopeSwa
        } else {
            Buf::RopeFull
        }
    }

    /// Attention of a layer for the token at `pos`: queries, and keys and values where the layer
    /// keeps them; norms and rotations; the attention itself; and its projection.
    pub open spec fn attention_steps(self, acc: Seq<Step>, layer: usize, pos: usize) -> Seq<Step> {
        let l = layer as int;
        let m = meta_of(self.cfg, l);
        let t = self.types@[l];
        let h = self.cfg.hidden;
        let eps = self.cfg.rms_eps;
        let src = self.cfg.source(l) as usize;
        let rope_off = (pos * m.hd) as usize;
        let (n, start) = attended(self.cfg.swa(l), self.cfg.sliding_window, pos);
        let kept = if layer < self.cfg.owners() {
            self.qkv_steps(acc, layer).push(
                Step::Run {
                    call: Eng::rmsnorm_per_head_qkv_q40_off(
                        self.cfg.n_heads,
                        self.cfg.n_kv,
                        m.hd,
                        eps,
                        Buf::TmpQ,
                        Buf::QNorm { layer },
                        self.rope_table(l),
                        rope_off,
                        Buf::TmpK,
                        Buf::KNorm { layer },
                        Buf::TmpV,
                        Buf::TmpQ,
                        Buf::KvK { layer: src },
                        Buf::KvV { layer: src },
                        (pos * (m.hd / 32 * 18)) as usize,
                    ),
                },
            )
        } else {
            self.normed_matvec_steps(
                acc,
                m.q_rows,
                t.q,
                Buf::Weight { layer, which: LayerWeight::AttnQ },
                Buf::AttnNorm { layer },
                Buf::TmpQ,
            ).push(
                Step::Run {
                    call: Eng::rmsnorm_per_head_rope_off(
                        self.cfg.n_heads,
                        m.hd,
                        eps,
                        Buf::TmpQ,
                        Buf::QNorm { layer },
                        self.rope_table(l),
                        rope_off,
                        Buf::TmpQ,
                        0,
                    ),
                },
            )
        };
        kept.push(Step::WriteMeta { layer, tlen: n, start, window: 0 }).push(
            Step::Run {
                call: Eng::sdpa_hybrid_kv(
                    self.cfg.n_heads,
                    m.hd,
                    self.max_seq,
                    n,
                    DType::Q40,
                    Buf::TmpQ,
                    Buf::KvK { layer: src },
                    Buf::KvV { layer: src },
                    Buf::Meta { layer },
                    Buf::TmpAttnMwg,
                    Buf::TmpO,
                ),
            },
        ).push(
            Step::Run {
                call: Eng::matvec_wd(
                    h,
                    m.o_in,
                    t.output,
                    Buf::Weight { layer, which: LayerWeight::AttnOutput },
                    Buf::TmpO,
                    Buf::X2,
                ),
            },
        )
    }

    pub fn attention(&self, out: &mut Vec<Step>, layer: usize)
        requires
            self.wf(),
            layer < self.cfg.n_layers,
            self.pos < self.max_seq,
        ensures
            final(out)@ == self.attention_steps(old(out)@, layer, self.pos),
    {
        let m = self.layers[layer];
        let t = self.types[layer];
        let h: usize = self.cfg.hidden;
        let eps: u32 = self.cfg.rms_eps;
        let swa: bool = self.cfg.is_swa(layer);
        let src: usize = self.cfg.kv_source(layer);
        let rope = if swa {
            Buf::RopeSwa
        } else {
            Buf::RopeFull
        };
        proof {
            self.cfg.lemma_layer_fits(self.max_seq, layer as int);
            lemma_mul_le(self.pos as int, m.hd as int, self.max_seq as int, m.hd as int);
        }
        let rope_off: usize = self.pos * m.hd;
        if self.cfg.owns_kv(layer) {
            let row: usize = q40_row_bytes(m.hd);
            proof {
                lemma_mul_le(self.pos as int, row as int, self.max_seq as int, m.hd as int);
            }
            let kv_off: usize = self.pos * row;
            self.rmsnorm_matvec_qkv_w(out, layer);
            out.push(
                Step::Run {
                    call: Eng::rmsnorm_per_head_qkv_q40_off(
                        self.cfg.n_heads,
                        self.cfg.n_kv,
                        m.hd,
                        eps,
                        Buf::TmpQ,
                        Buf::QNorm { layer },
                        rope,
                        rope_off,
                        Buf::TmpK,
                        Buf::KNorm { layer },
                        Buf::TmpV,
                        Buf::TmpQ,
                        Buf::KvK { layer: src },
                        Buf::KvV { layer: src },
                        kv_off,
                    ),
                },
            );
        } else {
            self.rmsnorm_matvec_w(
                out,
                m.q_rows,
                t.q,
                Buf::Weight { layer, which: LayerWeight::AttnQ },
                Buf::AttnNorm { layer },
                Buf::TmpQ,
            );
            out.push(
                Step::Run {
                    call: Eng::rmsnorm_per_head_rope_off(
                        self.cfg.n_heads,
                        m.hd,
                        eps,
                        Buf::TmpQ,
                        Buf::QNorm { layer },
                        rope,
                        rope_off,
                        Buf::TmpQ,
                        0,
                    ),
                },
            );
        }
        let (n, start) = attention_span(swa, self.cfg.sliding_window, self.pos);
        out.push(Step::WriteMeta { layer, tlen: n, start, window: 0 });
        out.push(
            Step::Run {
                call: Eng::sdpa_hybrid_kv(
                    self.cfg.n_heads,
                    m.hd,
                    self.max_seq,
                    n,
                    DType::Q40,
                    Buf::TmpQ,
                    Buf::KvK { layer: src },
                    Buf::KvV { layer: src },
                    Buf::Meta { layer },
                    Buf::TmpAttnMwg,
                    Buf::TmpO,
                ),
            },
        );
        out.push(
            Step::Run {
                call: Eng::matvec_wd(
                    h,
                    m.o_in,
                    t.output,
                    Buf::Weight { layer, which: LayerWeight::AttnOutput },
                    Buf::TmpO,
                    Buf::X2,
                ),
            },
        );
    }

    /// GELU of one product times the other, of the normalised activations.
    pub open spec fn gate_up_steps(self, acc: Seq<Step>, layer: usize) -> Seq<Step> {
        let m = meta_of(self.cfg, layer as int);
        let t = self.types@[layer as int];
        let h = self.cfg.hidden;
        let eps = self.cfg.rms_eps;
        let norm = Buf::FfnNorm { layer };
        let wg = Buf::Weight { layer, which: LayerWeight::FfnGate };
        let wu = Buf::Weight { layer, which: LayerWeight::FfnUp };
        let normed = acc.push(Step::Run { call: Eng::rmsnorm(h, eps, Buf::X, norm, Buf::X2) });
        if t.gate == t.up && is_packed(t.gate) {
            normed.push(
                Step::Run {
                    call: Eng::matvec_gate_up_gelu_wd(
                        m.ffn_inter,
                        h,
                        t.gate,
                        wg,
                        wu,
                        Buf::X2,
                        Buf::TmpFf3,
                    ),
                },
            )
        } else if t.gate == t.up {
            acc.push(
                Step::Run {
                    call: Eng::rmsnorm_matvec_gate_up_gelu_wd(
                        m.ffn_inter,
                        h,
                        eps,
                        t.gate,
                        Buf::X,
                        norm,
                        wg,
                        wu,
                        Buf::TmpFf3,
                    ),
                },
            )
        } else {
            normed.push(
                Step::Run {
                    call: Eng::matvec_wd(m.ffn_inter, h, t.gate, wg, Buf::X2, Buf::TmpFf1),
                },
            ).push(
                Step::Run { call: Eng::matvec_wd(m.ffn_inter, h, t.up, wu, Buf::X2, Buf::TmpFf2) },
            ).push(
                Step::Run {
                    call: Eng::gelu_mul(m.ffn_inter, Buf::TmpFf1, Buf::TmpFf2, Buf::TmpFf3),
                },
            )
        }
    }

    pub fn rmsnorm_matvec_gate_up_gelu_w(&self, out: &mut Vec<Step>, layer: usize)
        requires
            self.wf(),
            layer < self.cfg.n_layers,
        ensures
            final(out)@ == self.gate_up_steps(old(out)@, layer),
    {
        let m = self.layers[layer];
        let t = self.types[layer];
        let h: usize = self.cfg.hidden;
        let eps: u32 = self.cfg.rms_eps;
        let norm = Buf::FfnNorm { layer };
        let wg = Buf::Weight { layer, which: LayerWeight::FfnGate };
        let wu = Buf::Weight { layer, which: LayerWeight::FfnUp };
        if t.gate == t.up && is_packed(t.gate) {
            out.push(Step::Run { call: Eng::rmsnorm(h, eps, Buf::X, norm, Buf::X2) });
            out.push(
                Step::Run {
                    call: Eng::matvec_gate_up_gelu_wd(
                        m.ffn_inter,
                        h,
                        t.gate,
                        wg,
                        wu,
                        Buf::X2,
                        Buf::TmpFf3,
                    ),
                },
            );
        } else if t.gate == t.up {
            out.push(
                Step::Run {
                    call: Eng::rmsnorm_matvec_gate_up_gelu_wd(
                        m.ffn_inter,
                        h,
                        eps,
                        t.gate,
                        Buf::X,
                        norm,
                        wg,
                        wu,
                        Buf::TmpFf3,
                    ),
                },
            );
        } else {
            out.push(Step::Run { call: Eng::rmsnorm(h, eps, Buf::X, norm, Buf::X2) });
            out.push(
                Step::Run {
                    call: Eng::matvec_wd(m.ffn_inter, h, t.gate, wg, Buf::X2, Buf::TmpFf1),
                },
            );
            out.push(
                Step::Run { call: Eng::matvec_wd(m.ffn_inter, h, t.up, wu, Buf::X2, Buf::TmpFf2) },
            );
            out.push(
                Step::Run {
                    call: Eng::gelu_mul(m.ffn_inter, Buf::TmpFf1, Buf::TmpFf2, Buf::TmpFf3),
                },
            );
        }
    }

    /// The feed-forward half of a layer. Where gate and up share a packing, the norm after
    /// attention and the one before the products are one launch.
    pub open spec fn mlp_steps(self, acc: Seq<Step>, layer: usize) -> Seq<Step> {
        let m = meta_of(self.cfg, layer as int);
        let t = self.types@[layer as int];
        let h = self.cfg.hidden;
        let eps = self.cfg.rms_eps;
        let gated = if t.gate == t.up && is_packed(t.gate) {
            acc.push(
                Step::Run {
                    call: Eng::rmsnorm_add_then_rmsnorm(
                        h,
                        eps,
                        Buf::X2,
                        Buf::PostAttnNorm { layer },
                        Buf::X,
                        Buf::FfnNorm { layer },
                        Buf::X,
                        Buf::X2,
                    ),
                },
            ).push(
                Step::Run {
                    call: Eng::matvec_gate_up_gelu_wd(
                        m.ffn_inter,
                        h,
                        t.gate,
                        Buf::Weight { layer, which: LayerWeight::FfnGate },
                        Buf::Weight { layer, which: LayerWeight::FfnUp },
                        Buf::X2,
                        Buf::TmpFf3,
                    ),
                },
            )
        } else {
            self.gate_up_steps(
                acc.push(
                    Step::Run {
                        call: Eng::rmsnorm_add(
                            h,
                            eps,
                            Buf::X2,
                            Buf::PostAttnNorm { layer },
                            Buf::X,
                            Buf::X,
                        ),
                    },
                ),
                layer,
            )
        };
        gated.push(
            Step::Run {
                call: Eng::matvec_wd(
                    h,
                    m.ffn_inter,
                    t.down,
                    Buf::Weight { layer, which: LayerWeight::FfnDown },
                    Buf::TmpFf3,
                    Buf::X2,
                ),
            },
        ).push(
            Step::Run {
                call: Eng::rmsnorm_add(
                    h,
                    eps,
                    Buf::X2,
                    Buf::PostFfwNorm { layer },
                    Buf::X,
                    Buf::X,
                ),
            },
        )
    }

    pub fn mlp(&self, out: &mut Vec<Step>, layer: usize)
        requires
            self.wf(),
            layer < self.cfg.n_layers,
        ensures
            final(out)@ == self.mlp_steps(old(out)@, layer),
    {
        let m = self.layers[layer];
        let t = self.types[layer];
        let h: usize = self.cfg.hidden;
        let eps: u32 = self.cfg.rms_eps;
        if t.gate == t.up && is_packed(t.gate) {
            out.push(
                Step::Run {
                    call: Eng::rmsnorm_add_then_rmsnorm(
                        h,
                        eps,
                        Buf::X2,
                        Buf::PostAttnNorm { layer },
                        Buf::X,
                        Buf::FfnNorm { layer },
                        Buf::X,
                        Buf::X2,
                    ),
                },
            );
            out.push(
                Step::Run {
                    call: Eng::matvec_gate_up_gelu_wd(
                        m.ffn_inter,
                        h,
                        t.gate,
                        Buf::Weight { layer, which: LayerWeight::FfnGate },
                        Buf::Weight { layer, which: LayerWeight::FfnUp },
                        Buf::X2,
                        Buf::TmpFf3,
                    ),
                },
            );
        } else {
            out.push(
                Step::Run {
                    call: Eng::rmsnorm_add(
                        h,
                        eps,
                        Buf::X2,
                        Buf::PostAttnNorm { layer },
                        Buf::X,
                        Buf::X,
                    ),
                },
            );
            self.rmsnorm_matvec_gate_up_gelu_w(out, layer);
        }
        out.push(
            Step::Run {
                call: Eng::matvec_wd(
                    h,
                    m.ffn_inter,
                    t.down,
                    Buf::Weight { layer, which: LayerWeight::FfnDown },
                    Buf::TmpFf3,
                    Buf::X2,
                ),
            },
        );
        out.push(
            Step::Run {
                call: Eng::rmsnorm_add(
                    h,
                    eps,
                    Buf::X2,
                    Buf::PostFfwNorm { layer },
                    Buf::X,
                    Buf::X,
                ),
            },
        );
    }

    /// The per-layer embedding at the end of a layer: gated, projected, and added.
    pub open spec fn ple_layer_steps(self, acc: Seq<Step>, layer: usize) -> Seq<Step> {
        let t = self.types@[layer as int];
        let h = self.cfg.hidden;
        let d = self.cfg.ple_dim;
        acc.push(
            Step::Run {
                call: Eng::matvec_gelu_mul_at(
                    d,
                    h,
                    t.inp_gate,
                    Buf::Weight { layer, which: LayerWeight::InpGate },
                    Buf::X,
                    Buf::PleCtx,
                    (layer * d) as usize,
                    Buf::PleU,
                ),
            },
        ).push(
            Step::Run {
                call: Eng::matvec_rmsnorm_add_scale(
                    h,
                    d,
                    self.cfg.rms_eps,
                    self.layer_scales@[layer as int],
                    t.proj,
                    Buf::Weight { layer, which: LayerWeight::Proj },
                    Buf::PleU,
                    Buf::PostNorm { layer },
                    Buf::X,
                    Buf::X,
                ),
            },
        )
    }

    pub fn ple_layer(&self, out: &mut Vec<Step>, layer: usize)
        requires
            self.wf(),
            layer < self.cfg.n_layers,
        ensures
            final(out)@ == self.ple_layer_steps(old(out)@, layer),
    {
        let t = self.types[layer];
        let h: usize = self.cfg.hidden;
        let d: usize = self.cfg.ple_dim;
        proof {
            lemma_mul_le(layer as int, d as int, self.cfg.n_layers as int, d as int);
        }
        out.push(
            Step::Run {
                call: Eng::matvec_gelu_mul_at(
                    d,
                    h,
                    t.inp_gate,
                    Buf::Weight { layer, which: LayerWeight::InpGate },
                    Buf::X,
                    Buf::PleCtx,
                    layer * d,
                    Buf::PleU,
                ),
            },
        );
        out.push(
            Step::Run {
                call: Eng::matvec_rmsnorm_add_scale(
                    h,
                    d,
                    self.cfg.rms_eps,
                    self.layer_scales[layer],
                    t.proj,
                    Buf::Weight { layer, which: LayerWeight::Proj },
                    Buf::PleU,
                    Buf::PostNorm { layer },
                    Buf::X,
                    Buf::X,
                ),
            },
        );
    }

    /// The first `n` layers, for the token at `pos`.
    pub open spec fn layer_steps(self, acc: Seq<Step>, n: nat, pos: usize) -> Seq<Step>
        decreases n,
    {
        if n == 0 {
            acc
        } else {
            let layer = (n - 1) as usize;
            self.ple_layer_steps(
                self.mlp_steps(
                    self.attention_steps(
                        self.layer_steps(acc, (n - 1) as nat, pos),
                        layer,
                        pos,
                    ),
                    layer,
                ),
                layer,
            )
        }
    }

    /// The logits of a token and, unless they are sampled, the place of the greatest.
    pub open spec fn head_steps(self, acc: Seq<Step>, src: usize, sampling: bool) -> Seq<Step> {
        let logits = self.normed_matvec_steps(
            acc,
            self.cfg.vocab,
            self.embd_dtype,
            Buf::TokenEmbd,
            Buf::OutputNorm,
            Buf::Logits,
        );
        if sampling {
            logits
        } else {
            logits.push(
                Step::Run {
                    call: Eng::softcap_argmax(
                        self.cfg.vocab,
                        self.cfg.softcap,
                        Buf::Logits,
                        Buf::TokIdx { i: (1 - src) as usize },
                    ),
                },
            )
        }
    }

    pub fn output_head(&self, out: &mut Vec<Step>, sampling: bool)
        requires
            self.wf(),
        ensures
            final(out)@ == self.head_steps(old(out)@, self.decode_src, sampling),
    {
        self.rmsnorm_matvec_w(
            out,
            self.cfg.vocab,
            self.embd_dtype,
            Buf::TokenEmbd,
            Buf::OutputNorm,
            Buf::Logits,
        );
        if !sampling {
            out.push(
                Step::Run {
                    call: Eng::softcap_argmax(
                        self.cfg.vocab,
                        self.cfg.softcap,
                        Buf::Logits,
                        Buf::TokIdx { i: 1 - self.decode_src },
                    ),
                },
            );
        }
    }

    /// The steps before the layers: the number of the token, its embedding, its per-layer row.
    pub open spec fn entry_steps(
        self,
        acc: Seq<Step>,
        token: u32,
        pos: usize,
        src: usize,
        want_logits: bool,
    ) -> Result<Seq<Step>, ModelError> {
        let told = if self.ple_packed && !want_logits {
            acc.push(Step::WaitInflight { max: 1 }).push(Step::WriteToken { slot: src, token })
        } else {
            acc
        };
        let embedded = if self.ple_packed {
            self.embed_idx_call(src)
        } else {
            self.embed_call(token)
        };
        match embedded {
            Err(e) => Err(e),
            Ok(call) => Ok(
                self.prepass_steps(
                    self.ple_steps(told.push(Step::Run { call }), token, src, pos),
                ),
            ),
        }
    }

    /// The token buffer that a pass reads: a prefill pass turns to the other one, so that the last
    /// one can still be read.
    pub open spec fn turned(self, src: usize, want_logits: bool) -> usize {
        if self.ple_packed && !want_logits {
            (1 - src) as usize
        } else {
            src
        }
    }

    /// The plan of one token at `pos`, behind the steps of `acc`.
    pub open spec fn token_plan(
        self,
        acc: Seq<Step>,
        token: u32,
        pos: usize,
        src: usize,
        want_logits: bool,
        sampling: bool,
    ) -> Result<Seq<Step>, ModelError> {
        if pos >= self.max_seq {
            Err(ModelError::MaxSeq)
        } else {
            let s = self.turned(src, want_logits);
            match self.entry_steps(acc, token, pos, s, want_logits) {
                Err(e) => Err(e),
                Ok(entered) => {
                    let done = self.layer_steps(entered, self.cfg.n_layers as nat, pos);
                    if want_logits {
                        Ok(self.head_steps(done, s, sampling))
                    } else {
                        Ok(done.push(Step::Flush))
                    }
                },
            }
        }
    }

    /// What comes of a pass.
    pub open spec fn outcome_of(self, want_logits: bool) -> Outcome {
        if !want_logits || !self.return_token_sync {
            Outcome::Nothing
        } else if samples(self.sample_temperature) {
            Outcome::Sampled {
                cap: self.cfg.softcap,
                temperature: self.sample_temperature,
                min_p: self.sample_min_p,
                seed: self.sample_seed,
            }
        } else {
            Outcome::Argmax { slot: (1 - self.decode_src) as usize }
        }
    }

    /// Appends the plan of one token: its steps, and what comes of them. The model moves on by one
    /// position; after a sampled token the next one is greedy again.
    pub fn forward_into(
        &mut self,
        out: &mut Vec<Step>,
        token: u32,
        want_logits: bool,
    ) -> (r: Result<
        Outcome,
        ModelError,
    >)
        requires
            old(self).wf(),
            old(self).token_fits(token),
        ensures
            final(self).wf(),
            final(self).same_model(*old(self)),
            final(self).slot == old(self).slot,
            final(self).return_token_sync == old(self).return_token_sync,
            final(self).sample_min_p == old(self).sample_min_p,
            final(self).sample_seed == old(self).sample_seed,
            match old(self).token_plan(
                old(out)@,
                token,
                old(self).pos,
                old(self).decode_src,
                want_logits,
                samples(old(self).sample_temperature),
            ) {
                Err(e) => {
                    &&& r == Err::<Outcome, ModelError>(e)
                    &&& final(self).pos == old(self).pos
                    &&& final(self).sample_temperature == old(self).sample_temperature
                    &&& final(self).decode_src == (if e is MaxSeq {
                        old(self).decode_src
                    } else {
                        old(self).turned(old(self).decode_src, want_logits)
                    })
                },
                Ok(s) => {
                    &&& r == Ok::<Outcome, ModelError>(
                        old(self).outcome_of(want_logits),
                    )
                    &&& final(out)@ == s
                    &&& final(self).pos == old(self).pos + 1
                    &&& final(self).decode_src == old(self).turned(
                        old(self).decode_src,
                        want_logits,
                    )
                    &&& final(self).sample_temperature == (if old(self).outcome_of(
                        want_logits,
                    ) is Sampled {
                        0
                    } else {
                        old(self).sample_temperature
                    })
                },
            },
    {
        if self.pos >= self.max_seq {
            return Err(ModelError::MaxSeq);
        }
        let ghost acc = out@;
        let ghost was = *self;
        if self.ple_packed && !want_logits {
            self.decode_src = 1 - self.decode_src;
            out.push(Step::WaitInflight { max: 1 });
            out.push(Step::WriteToken { slot: self.decode_src, token });
        }
        let src: usize = self.decode_src;
        let call = if self.ple_packed {
            self.embed_from_idx(src)?
        } else {
            self.embed_token(token)?
        };
        out.push(Step::Run { call });
        assert(self.cfg.ple() <= usize::MAX) by {
            let p = self.cfg.ple();
            assert(p >= 0) by (nonlinear_arith)
                requires
                    p == self.cfg.n_layers * self.cfg.ple_dim,
            ;
        }
        self.load_ple_token(out, token, src);
        self.ple_prepass(out);
        let ghost entered = out@;
        assert(self.entry_steps(acc, token, self.pos, src, want_logits) == Ok::<
            Seq<Step>,
            ModelError,
        >(entered));
        let mut layer: usize = 0;
        while layer < self.cfg.n_layers
            invariant
                layer <= self.cfg.n_layers,
                self.wf(),
                self.pos < self.max_seq,
                out@ == self.layer_steps(entered, layer as nat, self.pos),
            decreases self.cfg.n_layers - layer,
        {
            self.attention(out, layer);
            self.mlp(out, layer);
            self.ple_layer(out, layer);
            layer += 1;
        }
        let ghost here = *self;
        proof {
            lemma_steps_same(was, here, entered, here.cfg.n_layers as nat, here.pos);
        }
        let sampling: bool = samples(self.sample_temperature);
        if !want_logits {
            self.pos = self.pos + 1;
            out.push(Step::Flush);
            return Ok(Outcome::Nothing);
        }
        self.output_head(out, sampling);
        self.pos = self.pos + 1;
        if !self.return_token_sync {
            return Ok(Outcome::Nothing);
        }
        if sampling {
            let t: u32 = self.sample_temperature;
            self.sample_temperature = 0;
            return Ok(
                Outcome::Sampled {
                    cap: self.cfg.softcap,
                    temperature: t,
                    min_p: self.sample_min_p,
                    seed: self.sample_seed,
                },
            );
        }
        Ok(Outcome::Argmax { slot: 1 - self.decode_src })
    }
}

/// The steps of the layers depend only on what a plan leaves alone.
pub proof fn lemma_steps_same(
    a: GemmaPrimModel,
    b: GemmaPrimModel,
    acc: Seq<Step>,
    n: nat,
    pos: usize,
)
    requires
        a.same_model(b),
    ensures
        a.layer_steps(acc, n, pos) == b.layer_steps(acc, n, pos),
    decreases n,
{
    if n > 0 {
        lemma_steps_same(a, b, acc, (n - 1) as nat, pos);
    }
}

} // verus!
