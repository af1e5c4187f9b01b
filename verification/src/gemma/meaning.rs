//! What the plan of a token computes: the layers of the Gemma architecture, one after the other, on
//! the embedding of the token, and the greatest of the logits.

use vstd::prelude::*;

use crate::gemma::forward::attended;
use crate::gemma::model::{is_packed, meta_of, GemmaPrimModel, Step};
use crate::ir::dtype::{DType, ONE};
use crate::kernels::buffer::{Buf, LayerWeight};
use crate::kernels::call::{Call, Eng};

verus! {

/// What the kernels compute, on vectors and tables of any kind. Sizes come first, then constants,
/// then contents.
#[verifier::reject_recursive_types(T)]
pub ghost struct Algebra<T> {
    /// A matrix of so many rows and columns times a vector.
    pub matvec: spec_fn(int, int, DType, T, T) -> T,
    /// A vector divided by its root mean square, times weights.
    pub norm: spec_fn(int, u32, T, T) -> T,
    /// The same for every head.
    pub norm_heads: spec_fn(int, int, u32, T, T) -> T,
    /// The same for every head, without weights.
    pub norm_plain: spec_fn(int, int, u32, T) -> T,
    /// Every head rotated by the row of a table.
    pub rotate: spec_fn(int, int, T, T, int) -> T,
    pub sum: spec_fn(T, T) -> T,
    pub scaled: spec_fn(u32, T) -> T,
    /// GELU of one vector times another.
    pub gated: spec_fn(T, T) -> T,
    /// So many elements of a vector from one on.
    pub part: spec_fn(T, int, int) -> T,
    /// A cache with a row packed into it from a byte on.
    pub put: spec_fn(T, int, T) -> T,
    /// The attention of queries to the keys and values of a span of positions.
    pub attend: spec_fn(int, int, DType, T, T, T, T) -> T,
    /// How many positions, from which one on, in which window.
    pub span: spec_fn(int, int, int) -> T,
    /// A token number.
    pub number: spec_fn(u32) -> T,
    /// The row of a token in a table.
    pub row: spec_fn(int, DType, T, T) -> T,
    /// The elements of a table from a byte on.
    pub elements: spec_fn(int, DType, T, int) -> T,
    /// The row of a token in the per-layer table of the host, scaled.
    pub host_row: spec_fn(u32) -> T,
    /// The place of the greatest of so many soft-capped elements.
    pub greatest: spec_fn(int, u32, T) -> T,
}

impl<T> Algebra<T> {
    /// Whether the rows of a table lie one behind the other: two bytes an element, or 144 bytes
    /// for 256 elements that are packed.
    pub open spec fn rows_lie_in_order(self) -> bool {
        forall|n: int, d: DType, table: T, token: u32|
            (d is F16 || d is Q4K) ==> #[trigger] (self.row)(n, d, table, (self.number)(token)) == (
            self.elements)(
                n,
                d,
                table,
                if d is F16 {
                    token * n * 2
                } else {
                    token * (n / 256 * 144)
                },
            )
    }
}

/// What the buffers hold.
pub type Memory<T> = Map<Buf, T>;

/// The whole of a vector, or a part of it.
pub open spec fn from<T>(al: Algebra<T>, t: T, off: int, n: int) -> T {
    if off == 0 {
        t
    } else {
        (al.part)(t, off, n)
    }
}

/// What a call does: it reads its inputs and writes its outputs. Calls that no plan of a single
/// token makes are left open.
pub open spec fn called<T>(al: Algebra<T>, c: Call, m: Memory<T>) -> Memory<T> {
    match c {
        Call::Matvec { rows, cols, weight, a, x, y } => m.insert(
            y,
            (al.matvec)(rows as int, cols as int, weight, m[a], m[x]),
        ),
        Call::MatvecQkv {
            q_rows,
            kv_rows,
            cols,
            wq_dtype,
            wk_dtype,
            wv_dtype,
            wq,
            wk,
            wv,
            x,
            q,
            k,
            v,
        } => m.insert(
            q,
            (al.matvec)(q_rows as int, cols as int, wq_dtype, m[wq], m[x]),
        ).insert(k, (al.matvec)(kv_rows as int, cols as int, wk_dtype, m[wk], m[x])).insert(
            v,
            (al.matvec)(kv_rows as int, cols as int, wv_dtype, m[wv], m[x]),
        ),
        Call::RmsNormMatvec { rows, cols, eps, weight, x, w_norm, w_mat, y } => m.insert(
            y,
            (al.matvec)(
                rows as int,
                cols as int,
                weight,
                m[w_mat],
                (al.norm)(cols as int, eps, m[x], m[w_norm]),
            ),
        ),
        Call::RmsNormMatvecQkv {
            q_rows,
            kv_rows,
            cols,
            eps,
            wq_dtype,
            wk_dtype,
            wv_dtype,
            x,
            w_norm,
            wq,
            wk,
            wv,
            q,
            k,
            v,
        } => {
            let n = (al.norm)(cols as int, eps, m[x], m[w_norm]);
            m.insert(q, (al.matvec)(q_rows as int, cols as int, wq_dtype, m[wq], n)).insert(
                k,
                (al.matvec)(kv_rows as int, cols as int, wk_dtype, m[wk], n),
            ).insert(v, (al.matvec)(kv_rows as int, cols as int, wv_dtype, m[wv], n))
        },
        Call::RmsNorm { n, eps, x, x_off: 0, w, y, y_off: 0 } => m.insert(
            y,
            (al.norm)(n as int, eps, m[x], m[w]),
        ),
        Call::RmsNormAdd { n, eps, x, w, residual, y } => m.insert(
            y,
            (al.sum)(m[residual], (al.norm)(n as int, eps, m[x], m[w])),
        ),
        Call::RmsNormAddThenRmsNorm { n, eps, y, w_post, residual, w_ffn, out_x, out_x2 } => {
            let s = (al.sum)(m[residual], (al.norm)(n as int, eps, m[y], m[w_post]));
            m.insert(out_x, s).insert(out_x2, (al.norm)(n as int, eps, s, m[w_ffn]))
        },
        Call::RmsNormPerHead { n_heads, hd, eps, x, w, y } => m.insert(
            y,
            (al.norm_heads)(n_heads as int, hd as int, eps, m[x], m[w]),
        ),
        Call::RmsNormPerHeadRope { n_heads, hd, eps, x, w, cos_sin, cos_sin_off, y, y_off: 0 } =>
        m.insert(
            y,
            (al.rotate)(
                n_heads as int,
                hd as int,
                (al.norm_heads)(n_heads as int, hd as int, eps, m[x], m[w]),
                m[cos_sin],
                cos_sin_off as int,
            ),
        ),
        Call::GeluMul { n, gate, up, up_off, y } => m.insert(
            y,
            (al.gated)(m[gate], from(al, m[up], up_off as int, n as int)),
        ),
        Call::MatvecGeluMul { rows, cols, weight, w, x, ctx, ctx_off, y } => m.insert(
            y,
            (al.gated)(
                (al.matvec)(rows as int, cols as int, weight, m[w], m[x]),
                (al.part)(m[ctx], ctx_off as int, rows as int),
            ),
        ),
        Call::MatvecRmsNormAddScale {
            rows,
            cols,
            eps,
            scale,
            weight,
            w,
            x,
            w_norm,
            residual,
            y,
        } => m.insert(
            y,
            (al.scaled)(
                scale,
                (al.sum)(
                    m[residual],
                    (al.norm)(
                        rows as int,
                        eps,
                        (al.matvec)(rows as int, cols as int, weight, m[w], m[x]),
                        m[w_norm],
                    ),
                ),
            ),
        ),
        Call::AddScale { n, scale, a, b, y } => m.insert(
            y,
            (al.scaled)(scale, (al.sum)(m[a], m[b])),
        ),
        Call::GateUpGelu { rows, cols, weight, gate, up, x, y } => m.insert(
            y,
            (al.gated)(
                (al.matvec)(rows as int, cols as int, weight, m[gate], m[x]),
                (al.matvec)(rows as int, cols as int, weight, m[up], m[x]),
            ),
        ),
        Call::RmsNormGateUpGelu { rows, cols, eps, weight, x, w_norm, gate, up, y } => {
            let n = (al.norm)(cols as int, eps, m[x], m[w_norm]);
            m.insert(
                y,
                (al.gated)(
                    (al.matvec)(rows as int, cols as int, weight, m[gate], n),
                    (al.matvec)(rows as int, cols as int, weight, m[up], n),
                ),
            )
        },
        Call::Sdpa { n_q, hd, max_t, kv_dtype, q, k, v, meta, out } => m.insert(
            out,
            (al.attend)(n_q as int, hd as int, kv_dtype, m[q], m[k], m[v], m[meta]),
        ),
        Call::SdpaMwg { n_q, hd, max_t, kv_dtype, q, k, v, meta, tmp, out } => m.insert(
            tmp,
            arbitrary(),
        ).insert(out, (al.attend)(n_q as int, hd as int, kv_dtype, m[q], m[k], m[v], m[meta])),
        Call::CopyScale { n, scale, dtype, src, src_byte_off, dst, dst_byte_off: 0 } => m.insert(
            dst,
            (al.scaled)(scale, (al.elements)(n as int, dtype, m[src], src_byte_off as int)),
        ),
        Call::CopyScaleIndexed { n, scale, dtype, src, idx, dst } => m.insert(
            dst,
            (al.scaled)(scale, (al.row)(n as int, dtype, m[src], m[idx])),
        ),
        Call::SoftcapArgmax { n, cap, x, out } => m.insert(
            out,
            (al.greatest)(n as int, cap, m[x]),
        ),
        Call::QkvNormQ40 {
            n_q,
            n_kv,
            hd,
            eps,
            q,
            qw,
            cos_sin,
            cos_sin_off,
            k,
            kw,
            v,
            q_out,
            k_dst,
            v_dst,
            kv_byte_off,
        } => {
            let turned = |heads: int, x: T, w: T|
                (al.rotate)(
                    heads,
                    hd as int,
                    (al.norm_heads)(heads, hd as int, eps, x, w),
                    m[cos_sin],
                    cos_sin_off as int,
                );
            m.insert(q_out, turned(n_q as int, m[q], m[qw])).insert(
                k_dst,
                (al.put)(m[k_dst], kv_byte_off as int, turned(n_kv as int, m[k], m[kw])),
            ).insert(
                v_dst,
                (al.put)(
                    m[v_dst],
                    kv_byte_off as int,
                    (al.norm_plain)(n_kv as int, hd as int, eps, m[v]),
                ),
            )
        },
        _ => arbitrary(),
    }
}

/// What a step does. Waiting changes nothing.
pub open spec fn stepped<T>(al: Algebra<T>, s: Step, m: Memory<T>) -> Memory<T> {
    match s {
        Step::WriteToken { slot, token } => m.insert(
            Buf::TokIdx { i: slot },
            (al.number)(token),
        ),
        Step::WritePleRow { stage, token } => m.insert(
            Buf::PleStage { i: stage },
            (al.host_row)(token),
        ),
        Step::WriteMeta { layer, tlen, start, window } => m.insert(
            Buf::Meta { layer },
            (al.span)(tlen as int, start as int, window as int),
        ),
        Step::Run { call } => called(al, call, m),
        Step::WaitInflight { .. } | Step::Flush | Step::Synchronize => m,
        _ => arbitrary(),
    }
}

/// What steps do, one after the other.
pub open spec fn ran<T>(al: Algebra<T>, steps: Seq<Step>, m: Memory<T>) -> Memory<T>
    decreases steps.len(),
{
    if steps.len() == 0 {
        m
    } else {
        stepped(al, steps.last(), ran(al, steps.drop_last(), m))
    }
}

pub proof fn lemma_push<T>(al: Algebra<T>, acc: Seq<Step>, s: Step, m: Memory<T>)
    ensures
        ran(al, acc.push(s), m) == stepped(al, s, ran(al, acc, m)),
{
    assert(acc.push(s).drop_last() =~= acc);
    assert(acc.push(s).last() == s);
}

/// Whether a buffer comes and goes with a token: activations, scratch, caches, spans and token
/// numbers.
pub open spec fn volatile(b: Buf) -> bool {
    match b {
        Buf::X
        | Buf::X2
        | Buf::TmpQ
        | Buf::TmpK
        | Buf::TmpV
        | Buf::TmpO
        | Buf::TmpAttnMwg
        | Buf::TmpFf1
        | Buf::TmpFf2
        | Buf::TmpFf3
        | Buf::PleU
        | Buf::PleTok
        | Buf::PleTmp
        | Buf::PleProj
        | Buf::PleStage { .. }
        | Buf::TokIdx { .. }
        | Buf::Logits
        | Buf::Meta { .. }
        | Buf::KvK { .. }
        | Buf::KvV { .. } => true,
        _ => false,
    }
}

/// Whether weights, tables and everything else that does not come and go is the same.
pub open spec fn same_weights<T>(a: Memory<T>, b: Memory<T>) -> bool {
    forall|x: Buf| !volatile(x) ==> #[trigger] a[x] == b[x]
}

/// What the layers hand on: the stream of activations, and keys and values layer by layer.
#[verifier::ext_equal]
pub ghost struct Stream<T> {
    pub x: T,
    pub keys: Map<usize, T>,
    pub values: Map<usize, T>,
}

/// The stream in the buffers.
pub open spec fn stream_in<T>(m: Memory<T>) -> Stream<T> {
    Stream {
        x: m[Buf::X],
        keys: Map::new(|l: usize| true, |l: usize| m[Buf::KvK { layer: l }]),
        values: Map::new(|l: usize| true, |l: usize| m[Buf::KvV { layer: l }]),
    }
}

impl GemmaPrimModel {
    /// A matrix of a layer times a vector.
    pub open spec fn times<T>(
        self,
        al: Algebra<T>,
        w: Memory<T>,
        layer: usize,
        which: LayerWeight,
        rows: int,
        cols: int,
        x: T,
    ) -> T {
        let t = self.types@[layer as int];
        let d = match which {
            LayerWeight::AttnQ => t.q,
            LayerWeight::AttnK => t.k,
            LayerWeight::AttnV => t.v,
            LayerWeight::AttnOutput => t.output,
            LayerWeight::FfnGate => t.gate,
            LayerWeight::FfnUp => t.up,
            LayerWeight::FfnDown => t.down,
            LayerWeight::InpGate => t.inp_gate,
            LayerWeight::Proj => t.proj,
        };
        (al.matvec)(rows, cols, d, w[Buf::Weight { layer, which }], x)
    }

    /// Heads normalised and rotated by the position.
    pub open spec fn turned_heads<T>(
        self,
        al: Algebra<T>,
        w: Memory<T>,
        layer: usize,
        pos: int,
        heads: int,
        norm: Buf,
        x: T,
    ) -> T {
        let hd = self.cfg.hd(layer as int) as int;
        let table = if self.cfg.swa(layer as int) {
            w[Buf::RopeSwa]
        } else {
            w[Buf::RopeFull]
        };
        (al.rotate)(
            heads,
            hd,
            (al.norm_heads)(heads, hd, self.cfg.rms_eps, x, w[norm]),
            table,
            pos * hd,
        )
    }

    /// Keys and values with those of the token at `pos`, if the layer keeps them.
    pub open spec fn with_token<T>(
        self,
        al: Algebra<T>,
        w: Memory<T>,
        layer: usize,
        pos: int,
        s: Stream<T>,
    ) -> Stream<T> {
        if layer < self.cfg.n_layers - self.cfg.shared_kv_layers {
            let c = self.cfg;
            let (h, hd) = (c.hidden as int, c.hd(layer as int) as int);
            let rows = c.n_kv * hd;
            let n = (al.norm)(h, c.rms_eps, s.x, w[Buf::AttnNorm { layer }]);
            let k = self.times(al, w, layer, LayerWeight::AttnK, rows, h, n);
            let v = self.times(al, w, layer, LayerWeight::AttnV, rows, h, n);
            let at = pos * (hd / 32 * 18);
            Stream {
                keys: s.keys.insert(
                    layer,
                    (al.put)(
                        s.keys[layer],
                        at,
                        self.turned_heads(
                            al,
                            w,
                            layer,
                            pos,
                            c.n_kv as int,
                            Buf::KNorm { layer },
                            k,
                        ),
                    ),
                ),
                values: s.values.insert(
                    layer,
                    (al.put)(
                        s.values[layer],
                        at,
                        (al.norm_plain)(c.n_kv as int, hd, c.rms_eps, v),
                    ),
                ),
                ..s
            }
        } else {
            s
        }
    }

    /// What attention of a layer gives: queries of the normalised stream attend to a span of
    /// positions, and what comes of it is projected back.
    pub open spec fn attention_to<T>(
        self,
        al: Algebra<T>,
        w: Memory<T>,
        layer: usize,
        pos: int,
        s: Stream<T>,
        span: T,
    ) -> T {
        let c = self.cfg;
        let (h, hd) = (c.hidden as int, c.hd(layer as int) as int);
        let rows = c.n_heads * hd;
        let src = c.source(layer as int) as usize;
        let n = (al.norm)(h, c.rms_eps, s.x, w[Buf::AttnNorm { layer }]);
        let q = self.turned_heads(
            al,
            w,
            layer,
            pos,
            c.n_heads as int,
            Buf::QNorm { layer },
            self.times(al, w, layer, LayerWeight::AttnQ, rows, h, n),
        );
        let kv = self.with_token(al, w, layer, pos, s);
        let o = (al.attend)(
            c.n_heads as int,
            hd,
            DType::Q40,
            q,
            kv.keys[src],
            kv.values[src],
            span,
        );
        self.times(al, w, layer, LayerWeight::AttnOutput, h, rows, o)
    }

    /// Attention of a token: to all positions up to its own, or to the last ones in the window.
    pub open spec fn attention_of<T>(
        self,
        al: Algebra<T>,
        w: Memory<T>,
        layer: usize,
        pos: int,
        s: Stream<T>,
    ) -> T {
        let c = self.cfg;
        let start = if c.swa(layer as int) && pos + 1 > c.sliding_window {
            pos + 1 - c.sliding_window
        } else {
            0
        };
        self.attention_to(al, w, layer, pos, s, (al.span)(pos + 1 - start, start, 0))
    }

    /// The stream after attention: the normalised output is added.
    pub open spec fn attended_stream<T>(
        self,
        al: Algebra<T>,
        w: Memory<T>,
        layer: usize,
        pos: int,
        s: Stream<T>,
    ) -> Stream<T> {
        let a = self.attention_of(al, w, layer, pos, s);
        let h = self.cfg.hidden as int;
        Stream {
            x: (al.sum)(
                s.x,
                (al.norm)(h, self.cfg.rms_eps, a, w[Buf::PostAttnNorm { layer }]),
            ),
            ..self.with_token(al, w, layer, pos, s)
        }
    }

    /// The stream after the feed-forward half: of the normalised stream, GELU of one product times
    /// the up product, projected down, normalised, and added.
    pub open spec fn fed_forward<T>(
        self,
        al: Algebra<T>,
        w: Memory<T>,
        layer: usize,
        s: Stream<T>,
    ) -> Stream<T> {
        let h = self.cfg.hidden as int;
        let f = self.cfg.ffn@[layer as int] as int;
        let eps = self.cfg.rms_eps;
        let n = (al.norm)(h, eps, s.x, w[Buf::FfnNorm { layer }]);
        let gate = self.times(al, w, layer, LayerWeight::FfnGate, f, h, n);
        let up = self.times(al, w, layer, LayerWeight::FfnUp, f, h, n);
        let down = self.times(al, w, layer, LayerWeight::FfnDown, h, f, (al.gated)(gate, up));
        Stream { x: (al.sum)(s.x, (al.norm)(h, eps, down, w[Buf::PostFfwNorm { layer }])), ..s }
    }

    /// The stream after the per-layer embedding: the gated row of the layer, projected, normalised
    /// and added, and all of it scaled.
    pub open spec fn embedded_layer<T>(
        self,
        al: Algebra<T>,
        w: Memory<T>,
        layer: usize,
        s: Stream<T>,
    ) -> Stream<T> {
        let h = self.cfg.hidden as int;
        let d = self.cfg.ple_dim as int;
        let gate = self.times(al, w, layer, LayerWeight::InpGate, d, h, s.x);
        let u = (al.gated)(gate, (al.part)(w[Buf::PleCtx], layer * d, d));
        let p = self.times(al, w, layer, LayerWeight::Proj, h, d, u);
        let n = (al.norm)(h, self.cfg.rms_eps, p, w[Buf::PostNorm { layer }]);
        Stream {
            x: (al.scaled)(self.layer_scales@[layer as int], (al.sum)(s.x, n)),
            ..s
        }
    }

    /// The stream after the first `n` layers.
    pub open spec fn after_layers<T>(
        self,
        al: Algebra<T>,
        w: Memory<T>,
        pos: int,
        n: nat,
        s: Stream<T>,
    ) -> Stream<T>
        decreases n,
    {
        if n == 0 {
            s
        } else {
            let layer = (n - 1) as usize;
            let before = self.after_layers(al, w, pos, (n - 1) as nat, s);
            self.embedded_layer(
                al,
                w,
                layer,
                self.fed_forward(
                    al,
                    w,
                    layer,
                    self.attended_stream(al, w, layer, pos, before),
                ),
            )
        }
    }

    proof fn lemma_qkv<T>(self, al: Algebra<T>, acc: Seq<Step>, layer: usize, m: Memory<T>)
        requires
            self.wf(),
            layer < self.cfg.n_layers,
        ensures
            ({
                let a = ran(al, acc, m);
                let b = ran(al, self.qkv_steps(acc, layer), m);
                let h = self.cfg.hidden as int;
                let hd = self.cfg.hd(layer as int) as int;
                let n = (al.norm)(h, self.cfg.rms_eps, a[Buf::X], a[Buf::AttnNorm { layer }]);
                &&& same_weights(a, b)
                &&& stream_in(a) == stream_in(b)
                &&& b[Buf::TmpQ] == self.times(
                    al,
                    a,
                    layer,
                    LayerWeight::AttnQ,
                    self.cfg.n_heads * hd,
                    h,
                    n,
                )
                &&& b[Buf::TmpK] == self.times(
                    al,
                    a,
                    layer,
                    LayerWeight::AttnK,
                    self.cfg.n_kv * hd,
                    h,
                    n,
                )
                &&& b[Buf::TmpV] == self.times(
                    al,
                    a,
                    layer,
                    LayerWeight::AttnV,
                    self.cfg.n_kv * hd,
                    h,
                    n,
                )
            }),
    {
        self.cfg.lemma_layer_fits(self.max_seq, layer as int);
        let mt = meta_of(self.cfg, layer as int);
        let t = self.types@[layer as int];
        let h = self.cfg.hidden;
        let eps = self.cfg.rms_eps;
        let norm = Buf::AttnNorm { layer };
        let wq = Buf::Weight { layer, which: LayerWeight::AttnQ };
        let wk = Buf::Weight { layer, which: LayerWeight::AttnK };
        let wv = Buf::Weight { layer, which: LayerWeight::AttnV };
        let s0 = Step::Run { call: Eng::rmsnorm(h, eps, Buf::X, norm, Buf::X2) };
        let normed = acc.push(s0);
        lemma_push(al, acc, s0, m);
        let a = ran(al, acc, m);
        let b = ran(al, self.qkv_steps(acc, layer), m);
        if t.q == DType::Q4K && t.k == DType::Q4K && t.v == DType::Q4K {
            lemma_push(al, normed, self.qkv_steps(acc, layer).last(), m);
            assert(self.qkv_steps(acc, layer) =~= normed.push(self.qkv_steps(acc, layer).last()));
        } else if t.q == t.k && t.k == t.v && !is_packed(t.q) {
            lemma_push(al, acc, self.qkv_steps(acc, layer).last(), m);
            assert(self.qkv_steps(acc, layer) =~= acc.push(self.qkv_steps(acc, layer).last()));
        } else {
            let s1 = Step::Run {
                call: Eng::matvec_wd(mt.q_rows, h, t.q, wq, Buf::X2, Buf::TmpQ),
            };
            let s2 = Step::Run {
                call: Eng::matvec_wd(mt.kv_rows, h, t.k, wk, Buf::X2, Buf::TmpK),
            };
            let s3 = Step::Run {
                call: Eng::matvec_wd(mt.kv_rows, h, t.v, wv, Buf::X2, Buf::TmpV),
            };
            lemma_push(al, normed, s1, m);
            lemma_push(al, normed.push(s1), s2, m);
            lemma_push(al, normed.push(s1).push(s2), s3, m);
        }
        assert(stream_in(a) =~= stream_in(b));
    }

    proof fn lemma_normed_matvec<T>(
        self,
        al: Algebra<T>,
        acc: Seq<Step>,
        rows: usize,
        weight: DType,
        w: Buf,
        norm: Buf,
        y: Buf,
        m: Memory<T>,
    )
        requires
            !volatile(w),
            !volatile(norm),
            y is TmpQ || y is Logits,
        ensures
            ({
                let a = ran(al, acc, m);
                let b = ran(al, self.normed_matvec_steps(acc, rows, weight, w, norm, y), m);
                let h = self.cfg.hidden as int;
                &&& forall|x: Buf| !volatile(x) && x != y ==> #[trigger] a[x] == b[x]
                &&& stream_in(a) == stream_in(b)
                &&& b[y] == (al.matvec)(
                    rows as int,
                    h,
                    weight,
                    a[w],
                    (al.norm)(h, self.cfg.rms_eps, a[Buf::X], a[norm]),
                )
            }),
    {
        let h = self.cfg.hidden;
        let eps = self.cfg.rms_eps;
        let a = ran(al, acc, m);
        let b = ran(al, self.normed_matvec_steps(acc, rows, weight, w, norm, y), m);
        if is_packed(weight) {
            let s0 = Step::Run { call: Eng::rmsnorm(h, eps, Buf::X, norm, Buf::X2) };
            let s1 = Step::Run { call: Eng::matvec_wd(rows, h, weight, w, Buf::X2, y) };
            lemma_push(al, acc, s0, m);
            lemma_push(al, acc.push(s0), s1, m);
        } else {
            let s0 = Step::Run {
                call: Eng::rmsnorm_matvec_wd(rows, h, eps, weight, Buf::X, norm, w, y),
            };
            lemma_push(al, acc, s0, m);
        }
        assert(stream_in(a) =~= stream_in(b));
    }

    /// Attention of a layer leaves its output in the second buffer of activations, and keys and
    /// values in the caches.
    pub proof fn lemma_attention<T>(
        self,
        al: Algebra<T>,
        acc: Seq<Step>,
        layer: usize,
        pos: usize,
        m: Memory<T>,
    )
        requires
            self.wf(),
            layer < self.cfg.n_layers,
            pos < self.max_seq,
        ensures
            ({
                let a = ran(al, acc, m);
                let b = ran(al, self.attention_steps(acc, layer, pos), m);
                &&& same_weights(a, b)
                &&& stream_in(b) == self.with_token(al, a, layer, pos as int, stream_in(a))
                &&& b[Buf::X2] == self.attention_of(al, a, layer, pos as int, stream_in(a))
            }),
    {
        let l = layer as int;
        let c = self.cfg;
        let mt = meta_of(c, l);
        let t = self.types@[l];
        let h = c.hidden;
        let eps = c.rms_eps;
        let src = c.source(l) as usize;
        let rope_off = (pos * mt.hd) as usize;
        let kv_off = (pos * (mt.hd / 32 * 18)) as usize;
        let (n, start) = attended(c.swa(l), c.sliding_window, pos);
        c.lemma_layer_fits(self.max_seq, l);
        crate::gemma::forward::lemma_mul_le(
            pos as int,
            mt.hd as int,
            self.max_seq as int,
            mt.hd as int,
        );
        crate::gemma::forward::lemma_mul_le(
            pos as int,
            mt.hd / 32 * 18,
            self.max_seq as int,
            mt.hd as int,
        );
        let a = ran(al, acc, m);
        let (asked, s0) = if layer < c.owners() {
            self.lemma_qkv(al, acc, layer, m);
            (
                self.qkv_steps(acc, layer),
                Step::Run {
                    call: Eng::rmsnorm_per_head_qkv_q40_off(
                        c.n_heads,
                        c.n_kv,
                        mt.hd,
                        eps,
                        Buf::TmpQ,
                        Buf::QNorm { layer },
                        self.rope_table(l),
                        rope_off,
                        Buf::TmpK,
                        Buf::KNorm { layer },
                        Buf::TmpV,
                        Buf::TmpQ,
                        Buf::KvK { layer: src },
                        Buf::KvV { layer: src },
                        kv_off,
                    ),
                },
            )
        } else {
            let w = Buf::Weight { layer, which: LayerWeight::AttnQ };
            let norm = Buf::AttnNorm { layer };
            self.lemma_normed_matvec(al, acc, mt.q_rows, t.q, w, norm, Buf::TmpQ, m);
            (
                self.normed_matvec_steps(acc, mt.q_rows, t.q, w, norm, Buf::TmpQ),
                Step::Run {
                    call: Eng::rmsnorm_per_head_rope_off(
                        c.n_heads,
                        mt.hd,
                        eps,
                        Buf::TmpQ,
                        Buf::QNorm { layer },
                        self.rope_table(l),
                        rope_off,
                        Buf::TmpQ,
                        0,
                    ),
                },
            )
        };
        let a1 = ran(al, asked, m);
        lemma_push(al, asked, s0, m);
        let kept = asked.push(s0);
        let a2 = ran(al, kept, m);
        let s1 = Step::WriteMeta { layer, tlen: n, start, window: 0 };
        let s2 = Step::Run {
            call: Eng::sdpa_hybrid_kv(
                c.n_heads,
                mt.hd,
                self.max_seq,
                n,
                DType::Q40,
                Buf::TmpQ,
                Buf::KvK { layer: src },
                Buf::KvV { layer: src },
                Buf::Meta { layer },
                Buf::TmpAttnMwg,
                Buf::TmpO,
            ),
        };
        let s3 = Step::Run {
            call: Eng::matvec_wd(
                h,
                mt.o_in,
                t.output,
                Buf::Weight { layer, which: LayerWeight::AttnOutput },
                Buf::TmpO,
                Buf::X2,
            ),
        };
        lemma_push(al, kept, s1, m);
        lemma_push(al, kept.push(s1), s2, m);
        lemma_push(al, kept.push(s1).push(s2), s3, m);
        let b = ran(al, self.attention_steps(acc, layer, pos), m);
        assert(self.attention_steps(acc, layer, pos) =~= kept.push(s1).push(s2).push(s3));
        let want = self.with_token(al, a, layer, pos as int, stream_in(a));
        assert(stream_in(a)  == stream_in(a1));
        if layer < c.owners() {
            assert(src == layer);
            assert(stream_in(a1).keys[layer] == a1[Buf::KvK { layer }]);
            assert(stream_in(a1).values[layer] == a1[Buf::KvV { layer }]);
        }
        assert(stream_in(a2) =~= want);
        assert(stream_in(b) =~= stream_in(a2));
        assert(stream_in(a2).keys[src] == a2[Buf::KvK { layer: src }]);
        assert(stream_in(a2).values[src] == a2[Buf::KvV { layer: src }]);
    }

    proof fn lemma_gate_up<T>(self, al: Algebra<T>, acc: Seq<Step>, layer: usize, m: Memory<T>)
        requires
            self.wf(),
            layer < self.cfg.n_layers,
        ensures
            ({
                let a = ran(al, acc, m);
                let b = ran(al, self.gate_up_steps(acc, layer), m);
                let h = self.cfg.hidden as int;
                let f = self.cfg.ffn@[layer as int] as int;
                let n = (al.norm)(h, self.cfg.rms_eps, a[Buf::X], a[Buf::FfnNorm { layer }]);
                &&& same_weights(a, b)
                &&& stream_in(a) == stream_in(b)
                &&& b[Buf::TmpFf3] == (al.gated)(
                    self.times(al, a, layer, LayerWeight::FfnGate, f, h, n),
                    self.times(al, a, layer, LayerWeight::FfnUp, f, h, n),
                )
            }),
    {
        let mt = meta_of(self.cfg, layer as int);
        let t = self.types@[layer as int];
        let h = self.cfg.hidden;
        let eps = self.cfg.rms_eps;
        let norm = Buf::FfnNorm { layer };
        let wg = Buf::Weight { layer, which: LayerWeight::FfnGate };
        let wu = Buf::Weight { layer, which: LayerWeight::FfnUp };
        let a = ran(al, acc, m);
        let b = ran(al, self.gate_up_steps(acc, layer), m);
        let s0 = Step::Run { call: Eng::rmsnorm(h, eps, Buf::X, norm, Buf::X2) };
        let normed = acc.push(s0);
        lemma_push(al, acc, s0, m);
        if t.gate == t.up && is_packed(t.gate) {
            let last = self.gate_up_steps(acc, layer).last();
            lemma_push(al, normed, last, m);
            assert(self.gate_up_steps(acc, layer) =~= normed.push(last));
        } else if t.gate == t.up {
            let last = self.gate_up_steps(acc, layer).last();
            lemma_push(al, acc, last, m);
            assert(self.gate_up_steps(acc, layer) =~= acc.push(last));
        } else {
            let s1 = Step::Run {
                call: Eng::matvec_wd(mt.ffn_inter, h, t.gate, wg, Buf::X2, Buf::TmpFf1),
            };
            let s2 = Step::Run {
                call: Eng::matvec_wd(mt.ffn_inter, h, t.up, wu, Buf::X2, Buf::TmpFf2),
            };
            let s3 = Step::Run {
                call: Eng::gelu_mul(mt.ffn_inter, Buf::TmpFf1, Buf::TmpFf2, Buf::TmpFf3),
            };
            lemma_push(al, normed, s1, m);
            lemma_push(al, normed.push(s1), s2, m);
            lemma_push(al, normed.push(s1).push(s2), s3, m);
        }
        assert(stream_in(a) =~= stream_in(b));
    }

    /// Behind attention, the feed-forward steps of a layer add the normalised output of attention
    /// to the stream, and then that of the feed-forward half.
    pub proof fn lemma_mlp<T>(self, al: Algebra<T>, acc: Seq<Step>, layer: usize, m: Memory<T>)
        requires
            self.wf(),
            layer < self.cfg.n_layers,
        ensures
            ({
                let a = ran(al, acc, m);
                let b = ran(al, self.mlp_steps(acc, layer), m);
                let h = self.cfg.hidden as int;
                let n = (al.norm)(
                    h,
                    self.cfg.rms_eps,
                    a[Buf::X2],
                    a[Buf::PostAttnNorm { layer }],
                );
                let s = stream_in(a);
                &&& same_weights(a, b)
                &&& stream_in(b) == self.fed_forward(
                    al,
                    a,
                    layer,
                    (Stream { x: (al.sum)(s.x, n), ..s }),
                )
            }),
    {
        let mt = meta_of(self.cfg, layer as int);
        let t = self.types@[layer as int];
        let h = self.cfg.hidden;
        let eps = self.cfg.rms_eps;
        let a = ran(al, acc, m);
        let gated = if t.gate == t.up && is_packed(t.gate) {
            let s0 = Step::Run {
                call: Eng::rmsnorm_add_then_rmsnorm(
                    h,
                    eps,
                    Buf::X2,
                    Buf::PostAttnNorm { layer },
                    Buf::X,
                    Buf::FfnNorm { layer },
                    Buf::X,
                    Buf::X2,
                ),
            };
            let s1 = Step::Run {
                call: Eng::matvec_gate_up_gelu_wd(
                    mt.ffn_inter,
                    h,
                    t.gate,
                    Buf::Weight { layer, which: LayerWeight::FfnGate },
                    Buf::Weight { layer, which: LayerWeight::FfnUp },
                    Buf::X2,
                    Buf::TmpFf3,
                ),
            };
            lemma_push(al, acc, s0, m);
            lemma_push(al, acc.push(s0), s1, m);
            acc.push(s0).push(s1)
        } else {
            let s0 = Step::Run {
                call: Eng::rmsnorm_add(
                    h,
                    eps,
                    Buf::X2,
                    Buf::PostAttnNorm { layer },
                    Buf::X,
                    Buf::X,
                ),
            };
            lemma_push(al, acc, s0, m);
            self.lemma_gate_up(al, acc.push(s0), layer, m);
            self.gate_up_steps(acc.push(s0), layer)
        };
        let s2 = Step::Run {
            call: Eng::matvec_wd(
                h,
                mt.ffn_inter,
                t.down,
                Buf::Weight { layer, which: LayerWeight::FfnDown },
                Buf::TmpFf3,
                Buf::X2,
            ),
        };
        let s3 = Step::Run {
            call: Eng::rmsnorm_add(h, eps, Buf::X2, Buf::PostFfwNorm { layer }, Buf::X, Buf::X),
        };
        lemma_push(al, gated, s2, m);
        lemma_push(al, gated.push(s2), s3, m);
        let b = ran(al, self.mlp_steps(acc, layer), m);
        assert(self.mlp_steps(acc, layer) =~= gated.push(s2).push(s3));
        let g = ran(al, gated, m);
        let s = stream_in(a);
        let n = (al.norm)(h as int, eps, a[Buf::X2], a[Buf::PostAttnNorm { layer }]);
        let mid = Stream { x: (al.sum)(s.x, n), ..s };
        assert(stream_in(g) =~= mid);
        assert(same_weights(a, g));
        assert(stream_in(b) =~= self.fed_forward(al, a, layer, mid));
    }

    /// The steps at the end of a layer add its per-layer embedding to the stream and scale it.
    pub proof fn lemma_ple_layer<T>(
        self,
        al: Algebra<T>,
        acc: Seq<Step>,
        layer: usize,
        m: Memory<T>,
    )
        requires
            self.wf(),
            layer < self.cfg.n_layers,
        ensures
            ({
                let a = ran(al, acc, m);
                let b = ran(al, self.ple_layer_steps(acc, layer), m);
                &&& same_weights(a, b)
                &&& stream_in(b) == self.embedded_layer(al, a, layer, stream_in(a))
            }),
    {
        let t = self.types@[layer as int];
        let h = self.cfg.hidden;
        let d = self.cfg.ple_dim;
        let a = ran(al, acc, m);
        crate::gemma::forward::lemma_mul_le(
            layer as int,
            d as int,
            self.cfg.n_layers as int,
            d as int,
        );
        let s0 = Step::Run {
            call: Eng::matvec_gelu_mul_at(
                d,
                h,
                t.inp_gate,
                Buf::Weight { layer, which: LayerWeight::InpGate },
                Buf::X,
                Buf::PleCtx,
                (layer * d) as usize,
                Buf::PleU,
            ),
        };
        let s1 = Step::Run {
            call: Eng::matvec_rmsnorm_add_scale(
                h,
                d,
                self.cfg.rms_eps,
                self.layer_scales@[layer as int],
                t.proj,
                Buf::Weight { layer, which: LayerWeight::Proj },
                Buf::PleU,
                Buf::PostNorm { layer },
                Buf::X,
                Buf::X,
            ),
        };
        lemma_push(al, acc, s0, m);
        lemma_push(al, acc.push(s0), s1, m);
        let b = ran(al, self.ple_layer_steps(acc, layer), m);
        assert(stream_in(b) =~= self.embedded_layer(al, a, layer, stream_in(a)));
    }

    /// Layers compute the same from the same weights.
    proof fn lemma_same_layer<T>(
        self,
        al: Algebra<T>,
        w: Memory<T>,
        v: Memory<T>,
        layer: usize,
        pos: int,
        s: Stream<T>,
    )
        requires
            same_weights(w, v),
        ensures
            self.attended_stream(al, w, layer, pos, s) == self.attended_stream(
                al,
                v,
                layer,
                pos,
                s,
            ),
            self.with_token(al, w, layer, pos, s) == self.with_token(al, v, layer, pos, s),
            self.fed_forward(al, w, layer, s) == self.fed_forward(al, v, layer, s),
            self.embedded_layer(al, w, layer, s) == self.embedded_layer(al, v, layer, s),
    {
    }

    /// After the steps of the first `n` layers the stream is what those layers of the architecture
    /// make of it, one after the other, and weights and tables are as they were.
    pub proof fn lemma_layers<T>(
        self,
        al: Algebra<T>,
        acc: Seq<Step>,
        n: nat,
        pos: usize,
        m: Memory<T>,
    )
        requires
            self.wf(),
            n <= self.cfg.n_layers,
            pos < self.max_seq,
        ensures
            ({
                let a = ran(al, acc, m);
                let b = ran(al, self.layer_steps(acc, n, pos), m);
                &&& same_weights(a, b)
                &&& stream_in(b) == self.after_layers(al, a, pos as int, n, stream_in(a))
            }),
        decreases n,
    {
        if n > 0 {
            let layer = (n - 1) as usize;
            let a = ran(al, acc, m);
            self.lemma_layers(al, acc, (n - 1) as nat, pos, m);
            let s0 = self.layer_steps(acc, (n - 1) as nat, pos);
            let m0 = ran(al, s0, m);
            self.lemma_attention(al, s0, layer, pos, m);
            let s1 = self.attention_steps(s0, layer, pos);
            let m1 = ran(al, s1, m);
            self.lemma_mlp(al, s1, layer, m);
            let s2 = self.mlp_steps(s1, layer);
            let m2 = ran(al, s2, m);
            self.lemma_ple_layer(al, s2, layer, m);
            let before = stream_in(m0);
            self.lemma_same_layer(al, a, m0, layer, pos as int, before);
            let x1 = self.attended_stream(al, a, layer, pos as int, before);
            self.lemma_same_layer(al, a, m1, layer, pos as int, x1);
            self.lemma_same_layer(al, a, m2, layer, pos as int, stream_in(m2));
            let s = stream_in(m1);
            let h = self.cfg.hidden as int;
            let p = (al.norm)(
                h,
                self.cfg.rms_eps,
                m1[Buf::X2],
                m1[Buf::PostAttnNorm { layer }],
            );
            assert(m1[Buf::PostAttnNorm { layer }] == m0[Buf::PostAttnNorm { layer }]);
            assert((Stream { x: (al.sum)(s.x, p), ..s }) == self.attended_stream(
                al,
                m0,
                layer,
                pos as int,
                before,
            ));
        }
    }

    /// The embedding of a token.
    pub open spec fn embedding<T>(self, al: Algebra<T>, w: Memory<T>, token: u32) -> T {
        (al.scaled)(
            self.embed_scale,
            (al.row)(
                self.cfg.hidden as int,
                self.embd_dtype,
                w[Buf::TokenEmbd],
                (al.number)(token),
            ),
        )
    }

    /// The per-layer row of a token, from the table on the device or on the host.
    pub open spec fn per_layer_row<T>(self, al: Algebra<T>, w: Memory<T>, token: u32) -> T {
        let n = self.cfg.n_layers * self.cfg.ple_dim;
        if self.ple_packed {
            (al.scaled)(
                self.ple_scale,
                (al.row)(n, DType::Q5K, w[Buf::PleEmbd], (al.number)(token)),
            )
        } else {
            (al.scaled)(ONE, (al.elements)(n, DType::F16, (al.host_row)(token), 0))
        }
    }

    /// What the layers are told: the embedding, projected and normalised, and what each layer
    /// knows of the token, put together.
    pub open spec fn context_of<T>(self, al: Algebra<T>, w: Memory<T>, x: T, known: T) -> T {
        let n = self.cfg.n_layers * self.cfg.ple_dim;
        let p = (al.matvec)(n, self.cfg.hidden as int, DType::Q4K, w[Buf::PleModelProj], x);
        (al.scaled)(
            0x3F3504F3,
            (al.sum)(
                (al.norm_heads)(
                    self.cfg.n_layers as int,
                    self.cfg.ple_dim as int,
                    self.cfg.rms_eps,
                    p,
                    w[Buf::PleProjNorm],
                ),
                known,
            ),
        )
    }

    /// The per-layer context of a token: its embedding projected and normalised layer by layer,
    /// plus its per-layer row, over the square root of two.
    pub open spec fn context<T>(self, al: Algebra<T>, w: Memory<T>, token: u32) -> T {
        self.context_of(al, w, self.embedding(al, w, token), self.per_layer_row(al, w, token))
    }

    /// The logits of a stream: the token embeddings times the normalised stream.
    pub open spec fn logits<T>(self, al: Algebra<T>, w: Memory<T>, x: T) -> T {
        let h = self.cfg.hidden as int;
        (al.matvec)(
            self.cfg.vocab as int,
            h,
            self.embd_dtype,
            w[Buf::TokenEmbd],
            (al.norm)(h, self.cfg.rms_eps, x, w[Buf::OutputNorm]),
        )
    }

    /// What the model makes of a token at `pos`: its embedding goes through all layers.
    pub open spec fn of_token<T>(
        self,
        al: Algebra<T>,
        w: Memory<T>,
        token: u32,
        pos: int,
        s: Stream<T>,
    ) -> Stream<T> {
        self.after_layers(
            al,
            w.insert(Buf::PleCtx, self.context(al, w, token)),
            pos,
            self.cfg.n_layers as nat,
            Stream { x: self.embedding(al, w, token), ..s },
        )
    }

    proof fn lemma_same_layers<T>(
        self,
        al: Algebra<T>,
        w: Memory<T>,
        v: Memory<T>,
        n: nat,
        pos: int,
        s: Stream<T>,
    )
        requires
            same_weights(w, v),
        ensures
            self.after_layers(al, w, pos, n, s) == self.after_layers(al, v, pos, n, s),
        decreases n,
    {
        if n > 0 {
            let layer = (n - 1) as usize;
            self.lemma_same_layers(al, w, v, (n - 1) as nat, pos, s);
            let s0 = self.after_layers(al, w, pos, (n - 1) as nat, s);
            self.lemma_same_layer(al, w, v, layer, pos, s0);
            let s1 = self.attended_stream(al, w, layer, pos, s0);
            self.lemma_same_layer(al, w, v, layer, pos, s1);
            self.lemma_same_layer(al, w, v, layer, pos, self.fed_forward(al, w, layer, s1));
        }
    }

    /// The steps before the layers put the embedding of the token into the stream, and its context
    /// beside it.
    pub proof fn lemma_entry<T>(
        self,
        al: Algebra<T>,
        acc: Seq<Step>,
        token: u32,
        pos: usize,
        src: usize,
        want_logits: bool,
        m: Memory<T>,
    )
        requires
            self.wf(),
            self.token_fits(token),
            al.rows_lie_in_order(),
            self.entry_steps(acc, token, pos, src, want_logits) is Ok,
            self.ple_packed && want_logits ==> ran(al, acc, m)[Buf::TokIdx { i: src }] == (
            al.number)(token),
        ensures
            ({
                let a = ran(al, acc, m);
                let b = ran(al, self.entry_steps(acc, token, pos, src, want_logits)->Ok_0, m);
                &&& same_weights(a.insert(Buf::PleCtx, self.context(al, a, token)), b)
                &&& stream_in(b) == (Stream {
                    x: self.embedding(al, a, token),
                    ..stream_in(a)
                })
            }),
    {
        let a = ran(al, acc, m);
        let h = self.cfg.hidden;
        let n = self.cfg.ple() as usize;
        let wait = Step::WaitInflight { max: 1 };
        let tell = Step::WriteToken { slot: src, token };
        let told = if self.ple_packed && !want_logits {
            lemma_push(al, acc, wait, m);
            lemma_push(al, acc.push(wait), tell, m);
            acc.push(wait).push(tell)
        } else {
            acc
        };
        let call = if self.ple_packed {
            self.embed_idx_call(src)->Ok_0
        } else {
            self.embed_call(token)->Ok_0
        };
        assert(token * (h / 256 * 144) <= token * h * 2) by (nonlinear_arith)
            requires
                0 <= token,
                0 <= h,
                h / 256 * 144 <= h * 2,
        ;
        let s0 = Step::Run { call };
        lemma_push(al, told, s0, m);
        let e = told.push(s0);
        let ae = ran(al, e, m);
        assert(ae[Buf::X] == self.embedding(al, a, token));
        let rowed = self.ple_steps(e, token, src, pos);
        if self.ple_packed {
            lemma_push(al, e, rowed.last(), m);
            assert(rowed =~= e.push(rowed.last()));
        } else {
            let stage = (pos % 2) as usize;
            let put = Step::WritePleRow { stage, token };
            lemma_push(al, e, wait, m);
            lemma_push(al, e.push(wait), put, m);
            lemma_push(al, e.push(wait).push(put), rowed.last(), m);
            assert(rowed =~= e.push(wait).push(put).push(rowed.last()));
        }
        let ar = ran(al, rowed, m);
        assert(ar[Buf::PleTok] == self.per_layer_row(al, a, token));
        let s1 = Step::Run {
            call: Eng::matvec_wd(n, h, DType::Q4K, Buf::PleModelProj, Buf::X, Buf::PleTmp),
        };
        let s2 = Step::Run {
            call: Eng::rmsnorm_per_head(
                self.cfg.n_layers,
                self.cfg.ple_dim,
                self.cfg.rms_eps,
                Buf::PleTmp,
                Buf::PleProjNorm,
                Buf::PleCtx,
            ),
        };
        let s3 = Step::Run {
            call: Eng::add_scale(
                n,
                crate::gemma::model::FRAC_1_SQRT_2,
                Buf::PleCtx,
                Buf::PleTok,
                Buf::PleCtx,
            ),
        };
        lemma_push(al, rowed, s1, m);
        lemma_push(al, rowed.push(s1), s2, m);
        lemma_push(al, rowed.push(s1).push(s2), s3, m);
        let b = ran(al, self.entry_steps(acc, token, pos, src, want_logits)->Ok_0, m);
        assert(self.entry_steps(acc, token, pos, src, want_logits)->Ok_0 =~= rowed.push(s1).push(
            s2,
        ).push(s3));
        assert(b[Buf::PleCtx] == self.context(al, a, token));
        assert(stream_in(b) =~= (Stream { x: self.embedding(al, a, token), ..stream_in(a) }));
    }

    /// The plan of a token computes what the architecture says: the embedding of the token goes
    /// through all layers at its position, and where logits are asked for, the token embeddings
    /// times the normalised stream are left as logits and, unless they are sampled, the place of
    /// the greatest in the other token buffer. Weights and tables stay as they are.
    pub proof fn lemma_token_plan<T>(
        self,
        al: Algebra<T>,
        acc: Seq<Step>,
        token: u32,
        pos: usize,
        src: usize,
        want_logits: bool,
        sampling: bool,
        m: Memory<T>,
    )
        requires
            self.wf(),
            self.token_fits(token),
            al.rows_lie_in_order(),
            src < 2,
            self.token_plan(acc, token, pos, src, want_logits, sampling) is Ok,
            self.ple_packed && want_logits ==> ran(al, acc, m)[Buf::TokIdx { i: src }] == (
            al.number)(token),
        ensures
            ({
                let a = ran(al, acc, m);
                let b = ran(
                    al,
                    self.token_plan(acc, token, pos, src, want_logits, sampling)->Ok_0,
                    m,
                );
                let s = self.of_token(al, a, token, pos as int, stream_in(a));
                &&& stream_in(b) == s
                &&& forall|x: Buf| !volatile(x) && x != Buf::PleCtx ==> #[trigger] a[x] == b[x]
                &&& want_logits ==> b[Buf::Logits] == self.logits(al, a, s.x)
                &&& want_logits && !sampling ==> b[Buf::TokIdx { i: (1 - src) as usize }] == (
                al.greatest)(self.cfg.vocab as int, self.cfg.softcap, self.logits(al, a, s.x))
            }),
    {
        let a = ran(al, acc, m);
        let t = self.turned(src, want_logits);
        let entered = self.entry_steps(acc, token, pos, t, want_logits)->Ok_0;
        self.lemma_entry(al, acc, token, pos, t, want_logits, m);
        let e = ran(al, entered, m);
        let n = self.cfg.n_layers as nat;
        self.lemma_layers(al, entered, n, pos, m);
        let done = self.layer_steps(entered, n, pos);
        let d = ran(al, done, m);
        let w = a.insert(Buf::PleCtx, self.context(al, a, token));
        self.lemma_same_layers(al, w, e, n, pos as int, stream_in(e));
        let s = self.of_token(al, a, token, pos as int, stream_in(a));
        assert(stream_in(d) == s);
        assert(d[Buf::X] == s.x);
        assert(same_weights(w, d));
        if want_logits {
            self.lemma_normed_matvec(
                al,
                done,
                self.cfg.vocab,
                self.embd_dtype,
                Buf::TokenEmbd,
                Buf::OutputNorm,
                Buf::Logits,
                m,
            );
            let l = self.normed_matvec_steps(
                done,
                self.cfg.vocab,
                self.embd_dtype,
                Buf::TokenEmbd,
                Buf::OutputNorm,
                Buf::Logits,
            );
            assert(d[Buf::TokenEmbd] == w[Buf::TokenEmbd]);
            assert(d[Buf::OutputNorm] == w[Buf::OutputNorm]);
            let lm = ran(al, l, m);
            if !sampling {
                let last = Step::Run {
                    call: Eng::softcap_argmax(
                        self.cfg.vocab,
                        self.cfg.softcap,
                        Buf::Logits,
                        Buf::TokIdx { i: (1 - t) as usize },
                    ),
                };
                lemma_push(al, l, last, m);
                assert(stream_in(ran(al, l.push(last), m)) =~= stream_in(lm));
            }
        } else {
            lemma_push(al, done, Step::Flush, m);
        }
        let b = ran(al, self.token_plan(acc, token, pos, src, want_logits, sampling)->Ok_0, m);
        assert forall|x: Buf| !volatile(x) && x != Buf::PleCtx implies #[trigger] a[x] == b[x] by {
            assert(w[x] == a[x]);
            assert(w[x] == d[x]);
        }
        assert(stream_in(b) == s);
        if want_logits {
            assert(b[Buf::Logits] == self.logits(al, a, s.x));
        }
    }

    /// A greedy decode step leaves in the second token buffer the place of the greatest logit that
    /// the model gives for the token, whatever the token buffers held before.
    pub proof fn lemma_decode_step<T>(self, al: Algebra<T>, token: u32, m: Memory<T>)
        requires
            self.wf(),
            self.token_fits(token),
            al.rows_lie_in_order(),
            self.token_plan(self.told(token), token, self.pos, 0, true, false) is Ok,
        ensures
            ({
                let steps = self.token_plan(self.told(token), token, self.pos, 0, true, false);
                let b = ran(al, steps->Ok_0, m);
                let s = self.of_token(al, m, token, self.pos as int, stream_in(m));
                &&& stream_in(b) == s
                &&& b[Buf::TokIdx { i: 1 }] == (al.greatest)(
                    self.cfg.vocab as int,
                    self.cfg.softcap,
                    self.logits(al, m, s.x),
                )
            }),
    {
        let none = Seq::<Step>::empty();
        let acc = self.told(token);
        let tell = Step::WriteToken { slot: 0, token };
        lemma_push(al, none, Step::Synchronize, m);
        lemma_push(al, none.push(Step::Synchronize), tell, m);
        let a = ran(al, acc, m);
        self.lemma_token_plan(al, acc, token, self.pos, 0, true, false, m);
        assert(stream_in(a) =~= stream_in(m));
        assert(same_weights(a, m));
        assert(self.context(al, a, token) == self.context(al, m, token));
        let (w, v) = (
            a.insert(Buf::PleCtx, self.context(al, a, token)),
            m.insert(Buf::PleCtx, self.context(al, m, token)),
        );
        self.lemma_same_layers(
            al,
            w,
            v,
            self.cfg.n_layers as nat,
            self.pos as int,
            (Stream { x: self.embedding(al, a, token), ..stream_in(a) }),
        );
    }
}

} // verus!
