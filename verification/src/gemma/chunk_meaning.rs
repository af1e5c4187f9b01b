//! What the plan of a chunk computes: for every row the layers of the Gemma architecture, one after
//! the other.

use vstd::prelude::*;

use crate::gemma::forward::lemma_mul_le;
use crate::gemma::meaning::{called, same_weights, stepped, stream_in, Algebra, Memory, Stream};
use crate::gemma::model::{
    meta_of, GemmaPrimModel, Step, FRAC_1_SQRT_2, PREFILL_CHUNK_SIZE,
};
use crate::gemma::prefill::chunk_window;
use crate::ir::dtype::DType;
use crate::kernels::buffer::{Buf, LayerWeight};
use crate::kernels::call::{Call, Eng};

verus! {

/// What a call does to the rows of a chunk, where vectors stand for as many rows as the chunk has
/// and every operation acts on each of them: a rotation turns each row by its own position, a
/// cache takes the rows one behind the other, and each row attends up to its own position. A call
/// for another number of rows is left open.
pub open spec fn called_rows<T>(al: Algebra<T>, rows_of: int, c: Call, m: Memory<T>) -> Memory<T> {
    match c {
        Call::MatvecBatch { rows, cols, batch, weight, a, x, y } => if batch == rows_of {
            m.insert(y, (al.matvec)(rows as int, cols as int, weight, m[a], m[x]))
        } else {
            arbitrary()
        },
        Call::RmsNormRows { n, rows, eps, x, w, y } => if rows == rows_of {
            m.insert(y, (al.norm)(n as int, eps, m[x], m[w]))
        } else {
            arbitrary()
        },
        Call::RmsNormAddRows { n, rows, eps, x, w, residual, y } => if rows == rows_of {
            m.insert(y, (al.sum)(m[residual], (al.norm)(n as int, eps, m[x], m[w])))
        } else {
            arbitrary()
        },
        Call::RmsNormAddScaleRows { n, rows, eps, scale, x, w, residual, y } => if rows == rows_of {
            m.insert(
                y,
                (al.scaled)(
                    scale,
                    (al.sum)(m[residual], (al.norm)(n as int, eps, m[x], m[w])),
                ),
            )
        } else {
            arbitrary()
        },
        Call::RmsNormAddThenRmsNormRows {
            n,
            rows,
            eps,
            y,
            w_post,
            residual,
            w_ffn,
            out_x,
            out_x2,
        } => if rows == rows_of {
            let s = (al.sum)(m[residual], (al.norm)(n as int, eps, m[y], m[w_post]));
            m.insert(out_x, s).insert(out_x2, (al.norm)(n as int, eps, s, m[w_ffn]))
        } else {
            arbitrary()
        },
        Call::QkvNormQ40Batch {
            n_q,
            n_kv,
            hd,
            batch,
            eps,
            q,
            qw,
            cos_sin,
            cos_sin_off,
            k,
            kw,
            v,
            q_out,
            k_dst,
            v_dst,
            kv_byte_off,
        } => if batch == rows_of {
            called(
                al,
                Call::QkvNormQ40 {
                    n_q,
                    n_kv,
                    hd,
                    eps,
                    q,
                    qw,
                    cos_sin,
                    cos_sin_off,
                    k,
                    kw,
                    v,
                    q_out,
                    k_dst,
                    v_dst,
                    kv_byte_off,
                },
                m,
            )
        } else {
            arbitrary()
        },
        Call::RmsNormPerHeadRopeBatch {
            n_heads,
            hd,
            batch,
            eps,
            x,
            w,
            cos_sin,
            cos_sin_off,
            y,
        } => if batch == rows_of {
            m.insert(
                y,
                (al.rotate)(
                    n_heads as int,
                    hd as int,
                    (al.norm_heads)(n_heads as int, hd as int, eps, m[x], m[w]),
                    m[cos_sin],
                    cos_sin_off as int,
                ),
            )
        } else {
            arbitrary()
        },
        Call::SdpaBatch { n_q, batch, hd, kv_dtype, q, k, v, meta, tmp, out, .. } => if batch
            == rows_of {
            m.insert(tmp, arbitrary()).insert(
                out,
                (al.attend)(n_q as int, hd as int, kv_dtype, m[q], m[k], m[v], m[meta]),
            )
        } else {
            arbitrary()
        },
        Call::RmsNormPerHead { n_heads, hd, eps, x, w, y } => if rows_of > 0 && (n_heads as int)
            % rows_of == 0 {
            m.insert(y, (al.norm_heads)(n_heads as int / rows_of, hd as int, eps, m[x], m[w]))
        } else {
            arbitrary()
        },
        Call::CopyScaleIndexedBatch { n, batch, scale, dtype, src, idx, dst } => if batch
            == rows_of {
            m.insert(dst, (al.scaled)(scale, (al.row)(n as int, dtype, m[src], m[idx])))
        } else {
            arbitrary()
        },
        Call::GeluMulStrided { n, rows, gate, up, up_off, up_stride, y } => if rows == rows_of {
            m.insert(y, (al.gated)(m[gate], (al.part)(m[up], up_off as int, n as int)))
        } else {
            arbitrary()
        },
        _ => called(al, c, m),
    }
}

/// What a step does to the rows of a chunk. The number of a token is put at its place.
pub open spec fn stepped_rows<T>(al: Algebra<T>, rows: int, s: Step, m: Memory<T>) -> Memory<T> {
    match s {
        Step::Run { call } => called_rows(al, rows, call, m),
        Step::WriteChunkToken { i, token } => m.insert(
            Buf::ChunkTok,
            (al.put)(m[Buf::ChunkTok], i as int, (al.number)(token)),
        ),
        _ => stepped(al, s, m),
    }
}

/// What steps do to the rows of a chunk, one after the other.
pub open spec fn ran_rows<T>(
    al: Algebra<T>,
    rows: int,
    steps: Seq<Step>,
    m: Memory<T>,
) -> Memory<T>
    decreases steps.len(),
{
    if steps.len() == 0 {
        m
    } else {
        stepped_rows(al, rows, steps.last(), ran_rows(al, rows, steps.drop_last(), m))
    }
}

/// The numbers of the first `n` tokens, each at its place.
pub open spec fn numbered<T>(al: Algebra<T>, before: T, tokens: Seq<u32>, n: nat) -> T
    decreases n,
{
    if n == 0 {
        before
    } else {
        (al.put)(
            numbered(al, before, tokens, (n - 1) as nat),
            n - 1,
            (al.number)(tokens[n - 1]),
        )
    }
}

proof fn lemma_push_rows<T>(al: Algebra<T>, rows: int, acc: Seq<Step>, s: Step, m: Memory<T>)
    ensures
        ran_rows(al, rows, acc.push(s), m) == stepped_rows(al, rows, s, ran_rows(al, rows, acc, m)),
{
    assert(acc.push(s).drop_last() =~= acc);
    assert(acc.push(s).last() == s);
}

impl GemmaPrimModel {
    /// Attention of the rows of a chunk that starts at `pos`: the first row attends to the
    /// positions up to its own, each further one to one more, all within the window.
    pub open spec fn chunk_attention_of<T>(
        self,
        al: Algebra<T>,
        w: Memory<T>,
        layer: usize,
        pos: int,
        s: Stream<T>,
    ) -> T {
        let c = self.cfg;
        let window = if c.swa(layer as int) {
            c.sliding_window as int
        } else {
            self.max_seq as int
        };
        self.attention_to(al, w, layer, pos, s, (al.span)(pos + 1, 0, window))
    }

    /// The rows after the first `n` layers.
    pub open spec fn after_chunk_layers<T>(
        self,
        al: Algebra<T>,
        w: Memory<T>,
        pos: int,
        n: nat,
        s: Stream<T>,
    ) -> Stream<T>
        decreases n,
    {
        if n == 0 {
            s
        } else {
            let layer = (n - 1) as usize;
            let h = self.cfg.hidden as int;
            let before = self.after_chunk_layers(al, w, pos, (n - 1) as nat, s);
            let a = self.chunk_attention_of(al, w, layer, pos, before);
            let attended = Stream {
                x: (al.sum)(
                    before.x,
                    (al.norm)(h, self.cfg.rms_eps, a, w[Buf::PostAttnNorm { layer }]),
                ),
                ..self.with_token(al, w, layer, pos, before)
            };
            self.embedded_layer(al, w, layer, self.fed_forward(al, w, layer, attended))
        }
    }

    /// Attention of a layer for a chunk.
    pub proof fn lemma_chunk_attention<T>(
        self,
        al: Algebra<T>,
        acc: Seq<Step>,
        layer: usize,
        pos: usize,
        batch: usize,
        m: Memory<T>,
    )
        requires
            self.wf(),
            layer < self.cfg.n_layers,
            pos < self.max_seq,
        ensures
            ({
                let rows = batch as int;
                let a = ran_rows(al, rows, acc, m);
                let b = ran_rows(
                    al,
                    rows,
                    self.chunk_attention_steps(acc, layer, pos, batch),
                    m,
                );
                &&& same_weights(a, b)
                &&& stream_in(b) == self.with_token(al, a, layer, pos as int, stream_in(a))
                &&& b[Buf::X2] == self.chunk_attention_of(al, a, layer, pos as int, stream_in(a))
            }),
    {
        let l = layer as int;
        let rows = batch as int;
        let c = self.cfg;
        let mt = meta_of(c, l);
        let t = self.types@[l];
        let h = c.hidden;
        let eps = c.rms_eps;
        let src = c.source(l) as usize;
        let rope_off = (pos * mt.hd) as usize;
        let kv_off = (pos * (mt.hd / 32 * 18)) as usize;
        let (n, window) = chunk_window(
            c.swa(l),
            c.sliding_window,
            self.max_seq,
            (pos + batch) as usize,
        );
        c.lemma_layer_fits(self.max_seq, l);
        lemma_mul_le(
            pos as int,
            mt.hd as int,
            self.max_seq as int,
            mt.hd as int,
        );
        lemma_mul_le(
            pos as int,
            mt.hd / 32 * 18,
            self.max_seq as int,
            mt.hd as int,
        );
        let a = ran_rows(al, rows, acc, m);
        let s0 = Step::Run {
            call: Eng::rmsnorm_rows(h, batch, eps, Buf::X, Buf::AttnNorm { layer }, Buf::X2),
        };
        let s1 = Step::Run {
            call: Eng::matvec_batch(
                mt.q_rows,
                h,
                batch,
                t.q,
                Buf::Weight { layer, which: LayerWeight::AttnQ },
                Buf::X2,
                Buf::TmpQ,
            ),
        };
        let queried = acc.push(s0).push(s1);
        lemma_push_rows(al, rows, acc, s0, m);
        lemma_push_rows(al, rows, acc.push(s0), s1, m);
        let kept = if layer < c.owners() {
            let s2 = Step::Run {
                call: Eng::matvec_batch(
                    mt.kv_rows,
                    h,
                    batch,
                    t.k,
                    Buf::Weight { layer, which: LayerWeight::AttnK },
                    Buf::X2,
                    Buf::TmpK,
                ),
            };
            let s3 = Step::Run {
                call: Eng::matvec_batch(
                    mt.kv_rows,
                    h,
                    batch,
                    t.v,
                    Buf::Weight { layer, which: LayerWeight::AttnV },
                    Buf::X2,
                    Buf::TmpV,
                ),
            };
            let s4 = Step::Run {
                call: Eng::rmsnorm_per_head_qkv_q40_batch(
                    c.n_heads,
                    c.n_kv,
                    mt.hd,
                    batch,
                    eps,
                    Buf::TmpQ,
                    Buf::QNorm { layer },
                    self.rope_table(l),
                    rope_off,
                    Buf::TmpK,
                    Buf::KNorm { layer },
                    Buf::TmpV,
                    Buf::TmpQ,
                    Buf::KvK { layer: src },
                    Buf::KvV { layer: src },
                    kv_off,
                ),
            };
            lemma_push_rows(al, rows, queried, s2, m);
            lemma_push_rows(al, rows, queried.push(s2), s3, m);
            lemma_push_rows(al, rows, queried.push(s2).push(s3), s4, m);
            queried.push(s2).push(s3).push(s4)
        } else {
            let s2 = Step::Run {
                call: Eng::rmsnorm_per_head_rope_batch(
                    c.n_heads,
                    mt.hd,
                    batch,
                    eps,
                    Buf::TmpQ,
                    Buf::QNorm { layer },
                    self.rope_table(l),
                    rope_off,
                    Buf::TmpQ,
                ),
            };
            lemma_push_rows(al, rows, queried, s2, m);
            queried.push(s2)
        };
        let a2 = ran_rows(al, rows, kept, m);
        let s5 = Step::WriteMeta { layer, tlen: (pos + 1) as u32, start: 0, window };
        let s6 = Step::Run {
            call: Eng::sdpa_hybrid_kv_batch(
                c.n_heads,
                batch,
                mt.hd,
                self.max_seq,
                n,
                DType::Q40,
                Buf::TmpQ,
                Buf::KvK { layer: src },
                Buf::KvV { layer: src },
                Buf::Meta { layer },
                Buf::TmpAttnMwg,
                Buf::TmpO,
            ),
        };
        let s7 = Step::Run {
            call: Eng::matvec_batch(
                h,
                mt.o_in,
                batch,
                t.output,
                Buf::Weight { layer, which: LayerWeight::AttnOutput },
                Buf::TmpO,
                Buf::X2,
            ),
        };
        lemma_push_rows(al, rows, kept, s5, m);
        lemma_push_rows(al, rows, kept.push(s5), s6, m);
        lemma_push_rows(al, rows, kept.push(s5).push(s6), s7, m);
        let steps = self.chunk_attention_steps(acc, layer, pos, batch);
        assert(steps =~= kept.push(s5).push(s6).push(s7));
        let b = ran_rows(al, rows, steps, m);
        let want = self.with_token(al, a, layer, pos as int, stream_in(a));
        if layer < c.owners() {
            assert(src == layer);
            assert(stream_in(a).keys[layer] == a[Buf::KvK { layer }]);
            assert(stream_in(a).values[layer] == a[Buf::KvV { layer }]);
        }
        assert(stream_in(a2) =~= want);
        assert(stream_in(b) =~= stream_in(a2));
        assert(stream_in(a2).keys[src] == a2[Buf::KvK { layer: src }]);
        assert(stream_in(a2).values[src] == a2[Buf::KvV { layer: src }]);
    }

    /// The feed-forward half of a layer and its per-layer embedding, for a chunk, behind attention.
    pub proof fn lemma_chunk_mlp<T>(
        self,
        al: Algebra<T>,
        acc: Seq<Step>,
        layer: usize,
        batch: usize,
        m: Memory<T>,
    )
        requires
            self.wf(),
            layer < self.cfg.n_layers,
        ensures
            ({
                let rows = batch as int;
                let a = ran_rows(al, rows, acc, m);
                let b = ran_rows(al, rows, self.chunk_mlp_steps(acc, layer, batch), m);
                let s = stream_in(a);
                let n = (al.norm)(
                    self.cfg.hidden as int,
                    self.cfg.rms_eps,
                    a[Buf::X2],
                    a[Buf::PostAttnNorm { layer }],
                );
                &&& same_weights(a, b)
                &&& stream_in(b) == self.embedded_layer(
                    al,
                    a,
                    layer,
                    self.fed_forward(al, a, layer, (Stream { x: (al.sum)(s.x, n), ..s })),
                )
            }),
    {
        let rows = batch as int;
        let mt = meta_of(self.cfg, layer as int);
        let t = self.types@[layer as int];
        let h = self.cfg.hidden;
        let eps = self.cfg.rms_eps;
        let d = self.cfg.ple_dim;
        let a = ran_rows(al, rows, acc, m);
        lemma_mul_le(
            layer as int,
            d as int,
            self.cfg.n_layers as int,
            d as int,
        );
        let s0 = Step::Run {
            call: Eng::rmsnorm_add_then_rmsnorm_rows(
                h,
                batch,
                eps,
                Buf::X2,
                Buf::PostAttnNorm { layer },
                Buf::X,
                Buf::FfnNorm { layer },
                Buf::X,
                Buf::X2,
            ),
        };
        let s1 = Step::Run {
            call: Eng::matvec_batch(
                mt.ffn_inter,
                h,
                batch,
                t.gate,
                Buf::Weight { layer, which: LayerWeight::FfnGate },
                Buf::X2,
                Buf::TmpFf1,
            ),
        };
        let s2 = Step::Run {
            call: Eng::matvec_batch(
                mt.ffn_inter,
                h,
                batch,
                t.up,
                Buf::Weight { layer, which: LayerWeight::FfnUp },
                Buf::X2,
                Buf::TmpFf2,
            ),
        };
        let s3 = Step::Run {
            call: Eng::gelu_mul(
                (batch * mt.ffn_inter) as usize,
                Buf::TmpFf1,
                Buf::TmpFf2,
                Buf::TmpFf3,
            ),
        };
        let s4 = Step::Run {
            call: Eng::matvec_batch(
                h,
                mt.ffn_inter,
                batch,
                t.down,
                Buf::Weight { layer, which: LayerWeight::FfnDown },
                Buf::TmpFf3,
                Buf::X2,
            ),
        };
        let s5 = Step::Run {
            call: Eng::rmsnorm_add_rows(
                h,
                batch,
                eps,
                Buf::X2,
                Buf::PostFfwNorm { layer },
                Buf::X,
                Buf::X,
            ),
        };
        let s6 = Step::Run {
            call: Eng::matvec_batch(
                d,
                h,
                batch,
                t.inp_gate,
                Buf::Weight { layer, which: LayerWeight::InpGate },
                Buf::X,
                Buf::PleU,
            ),
        };
        let s7 = Step::Run {
            call: Eng::gelu_mul_strided(
                d,
                batch,
                Buf::PleU,
                Buf::PleCtx,
                (layer * d) as usize,
                self.cfg.ple() as usize,
                Buf::PleU,
            ),
        };
        let s8 = Step::Run {
            call: Eng::matvec_batch(
                h,
                d,
                batch,
                t.proj,
                Buf::Weight { layer, which: LayerWeight::Proj },
                Buf::PleU,
                Buf::PleProj,
            ),
        };
        let s9 = Step::Run {
            call: Eng::rmsnorm_add_scale_rows(
                h,
                batch,
                eps,
                self.layer_scales@[layer as int],
                Buf::PleProj,
                Buf::PostNorm { layer },
                Buf::X,
                Buf::X,
            ),
        };
        let a1 = acc.push(s0);
        let a2 = a1.push(s1);
        let a3 = a2.push(s2);
        let a4 = a3.push(s3);
        let a5 = a4.push(s4);
        let a6 = a5.push(s5);
        let a7 = a6.push(s6);
        let a8 = a7.push(s7);
        let a9 = a8.push(s8);
        lemma_push_rows(al, rows, acc, s0, m);
        lemma_push_rows(al, rows, a1, s1, m);
        lemma_push_rows(al, rows, a2, s2, m);
        lemma_push_rows(al, rows, a3, s3, m);
        lemma_push_rows(al, rows, a4, s4, m);
        lemma_push_rows(al, rows, a5, s5, m);
        let mid = ran_rows(al, rows, a6, m);
        let s = stream_in(a);
        let n = (al.norm)(h as int, eps, a[Buf::X2], a[Buf::PostAttnNorm { layer }]);
        let fed = self.fed_forward(al, a, layer, (Stream { x: (al.sum)(s.x, n), ..s }));
        assert(stream_in(mid) =~= fed);
        assert(same_weights(a, mid));
        lemma_push_rows(al, rows, a6, s6, m);
        lemma_push_rows(al, rows, a7, s7, m);
        lemma_push_rows(al, rows, a8, s8, m);
        lemma_push_rows(al, rows, a9, s9, m);
        let steps = self.chunk_mlp_steps(acc, layer, batch);
        assert(steps =~= a9.push(s9));
        let b = ran_rows(al, rows, steps, m);
        assert(stream_in(b) =~= self.embedded_layer(al, a, layer, fed));
    }

    proof fn lemma_same_chunk_layer<T>(
        self,
        al: Algebra<T>,
        w: Memory<T>,
        v: Memory<T>,
        layer: usize,
        pos: int,
        s: Stream<T>,
    )
        requires
            same_weights(w, v),
        ensures
            self.chunk_attention_of(al, w, layer, pos, s) == self.chunk_attention_of(
                al,
                v,
                layer,
                pos,
                s,
            ),
            self.with_token(al, w, layer, pos, s) == self.with_token(al, v, layer, pos, s),
            self.fed_forward(al, w, layer, s) == self.fed_forward(al, v, layer, s),
            self.embedded_layer(al, w, layer, s) == self.embedded_layer(al, v, layer, s),
    {
    }

    /// After the steps of the first `n` layers of a chunk the rows are what those layers of the
    /// architecture make of them, and keys and values of all of them are kept.
    pub proof fn lemma_chunk_layers<T>(
        self,
        al: Algebra<T>,
        acc: Seq<Step>,
        n: nat,
        pos: usize,
        batch: usize,
        m: Memory<T>,
    )
        requires
            self.wf(),
            n <= self.cfg.n_layers,
            pos < self.max_seq,
        ensures
            ({
                let rows = batch as int;
                let a = ran_rows(al, rows, acc, m);
                let b = ran_rows(al, rows, self.chunk_layer_steps(acc, n, pos, batch), m);
                &&& same_weights(a, b)
                &&& stream_in(b) == self.after_chunk_layers(al, a, pos as int, n, stream_in(a))
            }),
        decreases n,
    {
        if n > 0 {
            let rows = batch as int;
            let layer = (n - 1) as usize;
            let a = ran_rows(al, rows, acc, m);
            self.lemma_chunk_layers(al, acc, (n - 1) as nat, pos, batch, m);
            let s0 = self.chunk_layer_steps(acc, (n - 1) as nat, pos, batch);
            let m0 = ran_rows(al, rows, s0, m);
            self.lemma_chunk_attention(al, s0, layer, pos, batch, m);
            let s1 = self.chunk_attention_steps(s0, layer, pos, batch);
            let m1 = ran_rows(al, rows, s1, m);
            self.lemma_chunk_mlp(al, s1, layer, batch, m);
            let before = stream_in(m0);
            self.lemma_same_chunk_layer(al, a, m0, layer, pos as int, before);
            let h = self.cfg.hidden as int;
            let s = stream_in(m1);
            let p = (al.norm)(
                h,
                self.cfg.rms_eps,
                m1[Buf::X2],
                m1[Buf::PostAttnNorm { layer }],
            );
            let x1 = Stream { x: (al.sum)(s.x, p), ..s };
            self.lemma_same_chunk_layer(al, a, m1, layer, pos as int, x1);
            self.lemma_same_chunk_layer(
                al,
                a,
                m1,
                layer,
                pos as int,
                self.fed_forward(al, a, layer, x1),
            );
            assert(m1[Buf::PostAttnNorm { layer }] == a[Buf::PostAttnNorm { layer }]);
        }
    }

    /// The embeddings of the tokens with these numbers.
    pub open spec fn embeddings<T>(self, al: Algebra<T>, w: Memory<T>, numbers: T) -> T {
        (al.scaled)(
            self.embed_scale,
            (al.row)(self.cfg.hidden as int, self.embd_dtype, w[Buf::TokenEmbd], numbers),
        )
    }

    /// What each layer knows of the tokens with these numbers.
    pub open spec fn per_layer_rows<T>(self, al: Algebra<T>, w: Memory<T>, numbers: T) -> T {
        (al.scaled)(
            self.ple_scale,
            (al.row)(
                self.cfg.n_layers * self.cfg.ple_dim,
                DType::Q5K,
                w[Buf::PleEmbd],
                numbers,
            ),
        )
    }

    proof fn lemma_numbered<T>(
        self,
        al: Algebra<T>,
        rows: int,
        acc: Seq<Step>,
        tokens: Seq<u32>,
        n: nat,
        m: Memory<T>,
    )
        requires
            n <= tokens.len() <= usize::MAX,
        ensures
            ({
                let a = ran_rows(al, rows, acc, m);
                let b = ran_rows(al, rows, self.told_steps(acc, tokens, n), m);
                &&& b[Buf::ChunkTok] == numbered(al, a[Buf::ChunkTok], tokens, n)
                &&& forall|x: Buf| x != Buf::ChunkTok ==> #[trigger] b[x] == a[x]
            }),
        decreases n,
    {
        if n > 0 {
            self.lemma_numbered(al, rows, acc, tokens, (n - 1) as nat, m);
            lemma_push_rows(
                al,
                rows,
                self.told_steps(acc, tokens, (n - 1) as nat),
                Step::WriteChunkToken { i: (n - 1) as usize, token: tokens[n - 1] },
                m,
            );
        }
    }

    /// Weights as the layers of a chunk find them: the tokens are numbered and the layers told.
    pub open spec fn chunk_entered<T>(
        self,
        al: Algebra<T>,
        a: Memory<T>,
        tokens: Seq<u32>,
    ) -> Memory<T> {
        let t = numbered(al, a[Buf::ChunkTok], tokens, tokens.len());
        a.insert(Buf::ChunkTok, t).insert(
            Buf::PleCtx,
            self.context_of(
                al,
                a,
                self.embeddings(al, a, t),
                self.per_layer_rows(al, a, t),
            ),
        )
    }

    /// Before the layers of a chunk run, the stream is made of the embeddings of its tokens, and
    /// the layers are told of them. The packed embeddings are on the device.
    pub proof fn lemma_chunk_entered<T>(
        self,
        al: Algebra<T>,
        acc: Seq<Step>,
        tokens: Seq<u32>,
        pos: usize,
        src: usize,
        m: Memory<T>,
    )
        requires
            self.wf(),
            self.ple_packed,
            0 < tokens.len() <= PREFILL_CHUNK_SIZE,
            self.chunk_entry_steps(acc, tokens, pos, src) is Ok,
        ensures
            ({
                let rows = tokens.len() as int;
                let a = ran_rows(al, rows, acc, m);
                let b = ran_rows(
                    al,
                    rows,
                    self.prepass_batch_steps(
                        self.chunk_entry_steps(acc, tokens, pos, src)->Ok_0,
                        tokens.len() as usize,
                    ),
                    m,
                );
                let t = numbered(al, a[Buf::ChunkTok], tokens, tokens.len());
                &&& same_weights(self.chunk_entered(al, a, tokens), b)
                &&& stream_in(b) == (Stream { x: self.embeddings(al, a, t), ..stream_in(a) })
            }),
    {
        let rows = tokens.len() as int;
        let batch = tokens.len() as usize;
        let a = ran_rows(al, rows, acc, m);
        let n = self.cfg.ple() as usize;
        self.lemma_ple();
        let layers = self.cfg.n_layers as int;
        lemma_mul_le(rows, layers, PREFILL_CHUNK_SIZE as int, layers);
        assert((rows * layers) / rows == layers && (rows * layers) % rows == 0)
            by (nonlinear_arith)
            requires
                rows > 0,
        ;
        self.lemma_numbered(al, rows, acc, tokens, tokens.len(), m);
        let told = self.told_steps(acc, tokens, tokens.len());
        let s0 = Step::Run { call: self.embed_batch_call(batch)->Ok_0 };
        let s1 = Step::Run {
            call: Eng::copy_scale_indexed_batch_wd(
                n,
                batch,
                self.ple_scale,
                DType::Q5K,
                Buf::PleEmbd,
                Buf::ChunkTok,
                Buf::PleTok,
            ),
        };
        let s2 = Step::Run {
            call: Eng::matvec_batch(
                n,
                self.cfg.hidden,
                batch,
                DType::Q4K,
                Buf::PleModelProj,
                Buf::X,
                Buf::PleTmp,
            ),
        };
        let s3 = Step::Run {
            call: Eng::rmsnorm_per_head(
                (batch * self.cfg.n_layers) as usize,
                self.cfg.ple_dim,
                self.cfg.rms_eps,
                Buf::PleTmp,
                Buf::PleProjNorm,
                Buf::PleCtx,
            ),
        };
        let s4 = Step::Run {
            call: Eng::add_scale(
                (batch * n) as usize,
                FRAC_1_SQRT_2,
                Buf::PleCtx,
                Buf::PleTok,
                Buf::PleCtx,
            ),
        };
        let a1 = told.push(s0);
        let a2 = a1.push(s1);
        let a3 = a2.push(s2);
        let a4 = a3.push(s3);
        lemma_push_rows(al, rows, told, s0, m);
        lemma_push_rows(al, rows, a1, s1, m);
        lemma_push_rows(al, rows, a2, s2, m);
        lemma_push_rows(al, rows, a3, s3, m);
        lemma_push_rows(al, rows, a4, s4, m);
        let entered = self.chunk_entry_steps(acc, tokens, pos, src)->Ok_0;
        assert(entered == a2);
        assert(self.prepass_batch_steps(entered, batch) == a4.push(s4));
        let b = ran_rows(al, rows, a4.push(s4), m);
        let t = numbered(al, a[Buf::ChunkTok], tokens, tokens.len());
        assert(stream_in(b) =~= (Stream { x: self.embeddings(al, a, t), ..stream_in(a) }));
    }

    /// The plan of a chunk runs the embeddings of its tokens through all layers, and keeps keys
    /// and values of all of them.
    pub proof fn lemma_chunk_plan<T>(
        self,
        al: Algebra<T>,
        acc: Seq<Step>,
        tokens: Seq<u32>,
        pos: usize,
        src: usize,
        m: Memory<T>,
    )
        requires
            self.wf(),
            self.ple_packed,
            0 < tokens.len() <= PREFILL_CHUNK_SIZE,
            self.chunk_plan(acc, tokens, pos, src) is Ok,
        ensures
            ({
                let rows = tokens.len() as int;
                let a = ran_rows(al, rows, acc, m);
                let b = ran_rows(al, rows, self.chunk_plan(acc, tokens, pos, src)->Ok_0, m);
                let t = numbered(al, a[Buf::ChunkTok], tokens, tokens.len());
                let w = self.chunk_entered(al, a, tokens);
                &&& same_weights(w, b)
                &&& stream_in(b) == self.after_chunk_layers(
                    al,
                    w,
                    pos as int,
                    self.cfg.n_layers as nat,
                    (Stream { x: self.embeddings(al, a, t), ..stream_in(a) }),
                )
            }),
    {
        let rows = tokens.len() as int;
        let batch = tokens.len() as usize;
        let a = ran_rows(al, rows, acc, m);
        let n = self.cfg.n_layers as nat;
        self.lemma_chunk_entered(al, acc, tokens, pos, src, m);
        let entered = self.prepass_batch_steps(
            self.chunk_entry_steps(acc, tokens, pos, src)->Ok_0,
            batch,
        );
        let e = ran_rows(al, rows, entered, m);
        self.lemma_chunk_layers(al, entered, n, pos, batch, m);
        let steps = self.chunk_layer_steps(entered, n, pos, batch);
        lemma_push_rows(al, rows, steps, Step::Synchronize, m);
        self.lemma_same_chunk_layers(
            al,
            self.chunk_entered(al, a, tokens),
            e,
            pos as int,
            n,
            stream_in(e),
        );
    }

    proof fn lemma_same_chunk_layers<T>(
        self,
        al: Algebra<T>,
        w: Memory<T>,
        v: Memory<T>,
        pos: int,
        n: nat,
        s: Stream<T>,
    )
        requires
            same_weights(w, v),
        ensures
            self.after_chunk_layers(al, w, pos, n, s) == self.after_chunk_layers(
                al,
                v,
                pos,
                n,
                s,
            ),
        decreases n,
    {
        if n > 0 {
            self.lemma_same_chunk_layers(al, w, v, pos, (n - 1) as nat, s);
            let layer = (n - 1) as usize;
            let before = self.after_chunk_layers(al, w, pos, (n - 1) as nat, s);
            self.lemma_same_chunk_layer(al, w, v, layer, pos, before);
            let p = (al.norm)(
                self.cfg.hidden as int,
                self.cfg.rms_eps,
                self.chunk_attention_of(al, w, layer, pos, before),
                w[Buf::PostAttnNorm { layer }],
            );
            let attended = Stream {
                x: (al.sum)(before.x, p),
                ..self.with_token(al, w, layer, pos, before)
            };
            assert(w[Buf::PostAttnNorm { layer }] == v[Buf::PostAttnNorm { layer }]);
            self.lemma_same_chunk_layer(al, w, v, layer, pos, attended);
            self.lemma_same_chunk_layer(
                al,
                w,
                v,
                layer,
                pos,
                self.fed_forward(al, w, layer, attended),
            );
        }
    }
}

} // verus!
