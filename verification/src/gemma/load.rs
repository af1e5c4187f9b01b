//! The plan of loading a model: which tensors are uploaded and how, which buffers are made and how
//! large, and which products are tuned beforehand.

use vstd::prelude::*;
use vstd::string::*;

use crate::gemma::config::GemmaConfig;
use crate::gemma::forward::lemma_mul_le;
use crate::gemma::model::{
    meta_of, mul_fits, GemmaPrimModel, LayerMeta, LayerTypes, Step, PREFILL_CHUNK_SIZE,
};
use crate::ir::dtype::{q40_nbytes, DType};
use crate::kernels::buffer::{layer_name, layer_tensor, Buf, LayerWeight};
use crate::kernels::call::Eng;
use crate::text::{chars_of, ends_with, ends_with_str};

verus! {

/// How a tensor is stored in the file, as far as loading cares.
#[derive(Clone, Copy, Debug, PartialEq, Eq, Structural)]
pub enum TensorType {
    Q4K,
    Q5K,
    Q6K,
    Other,
}

/// How a tensor gets to the device.
#[derive(Clone, Copy, Debug, PartialEq, Eq, Structural)]
pub enum UploadKind {
    /// As it is stored.
    Raw,
    /// Expanded to half precision.
    Half,
    /// Expanded and packed as Q4_K.
    QuantizeQ4K,
    /// Expanded, divided by the square root of the width, and packed as Q4_K.
    ScaleQuantizeQ4K,
}

/// How a matrix gets to the device: packed as Q4_K, but Q6_K stays as it is except where the
/// packed product is faster.
pub open spec fn weight_upload(name: Seq<char>, ty: TensorType) -> (UploadKind, DType) {
    match ty {
        TensorType::Q4K => (UploadKind::Raw, DType::Q4K),
        TensorType::Q6K => if ends_with(name, "ffn_down.weight"@) || ends_with(
            name,
            "attn_v.weight"@,
        ) {
            (UploadKind::QuantizeQ4K, DType::Q4K)
        } else {
            (UploadKind::Raw, DType::Q6K)
        },
        _ => (UploadKind::QuantizeQ4K, DType::Q4K),
    }
}

/// Decides how a matrix gets to the device.
pub fn ensure_weight(name: &str, ty: TensorType) -> (r: (UploadKind, DType))
    ensures
        r == weight_upload(name@, ty),
{
    match ty {
        TensorType::Q4K => (UploadKind::Raw, DType::Q4K),
        TensorType::Q6K => {
            let v = chars_of(name);
            if ends_with_str(&v, "ffn_down.weight") || ends_with_str(&v, "attn_v.weight") {
                (UploadKind::QuantizeQ4K, DType::Q4K)
            } else {
                (UploadKind::Raw, DType::Q6K)
            }
        },
        _ => (UploadKind::QuantizeQ4K, DType::Q4K),
    }
}

/// The matrices of a layer in the file; a layer without keys and values of its own may lack some.
#[derive(Clone, Copy, Debug, PartialEq, Eq, Structural)]
pub struct LayerTensors {
    pub q: Option<TensorType>,
    pub k: Option<TensorType>,
    pub v: Option<TensorType>,
    pub output: Option<TensorType>,
    pub gate: Option<TensorType>,
    pub up: Option<TensorType>,
    pub down: Option<TensorType>,
    pub inp_gate: Option<TensorType>,
    pub proj: Option<TensorType>,
}

impl LayerTensors {
    /// Matrix number `i`, in the order of upload.
    pub open spec fn nth(self, i: int) -> (LayerWeight, Option<TensorType>) {
        if i == 0 {
            (LayerWeight::AttnQ, self.q)
        } else if i == 1 {
            (LayerWeight::AttnK, self.k)
        } else if i == 2 {
            (LayerWeight::AttnV, self.v)
        } else if i == 3 {
            (LayerWeight::AttnOutput, self.output)
        } else if i == 4 {
            (LayerWeight::FfnGate, self.gate)
        } else if i == 5 {
            (LayerWeight::FfnUp, self.up)
        } else if i == 6 {
            (LayerWeight::FfnDown, self.down)
        } else if i == 7 {
            (LayerWeight::InpGate, self.inp_gate)
        } else {
            (LayerWeight::Proj, self.proj)
        }
    }

    fn get(&self, i: usize) -> (r: (LayerWeight, Option<TensorType>))
        requires
            i < 9,
        ensures
            r == self.nth(i as int),
    {
        match i {
            0 => (LayerWeight::AttnQ, self.q),
            1 => (LayerWeight::AttnK, self.k),
            2 => (LayerWeight::AttnV, self.v),
            3 => (LayerWeight::AttnOutput, self.output),
            4 => (LayerWeight::FfnGate, self.gate),
            5 => (LayerWeight::FfnUp, self.up),
            6 => (LayerWeight::FfnDown, self.down),
            7 => (LayerWeight::InpGate, self.inp_gate),
            _ => (LayerWeight::Proj, self.proj),
        }
    }
}

/// The tensors of a model file. Floating-point values are bit patterns.
#[derive(Debug)]
pub struct Inventory {
    pub token_embd: TensorType,
    pub ple_model_proj: bool,
    pub ple_token_embd: Option<TensorType>,
    pub layers: Vec<LayerTensors>,
    /// The scale of the output of each layer.
    pub layer_scales: Vec<u32>,
    /// The square root of the width.
    pub embed_scale: u32,
    /// The square root of the per-layer width.
    pub ple_scale: u32,
}

/// One upload.
#[derive(Debug)]
pub struct Upload {
    pub name: String,
    pub buf: Buf,
    pub how: UploadKind,
}

pub ghost struct UploadV {
    pub name: Seq<char>,
    pub buf: Buf,
    pub how: UploadKind,
}

impl View for Upload {
    type V = UploadV;

    open spec fn view(&self) -> UploadV {
        UploadV { name: self.name@, buf: self.buf, how: self.how }
    }
}

pub open spec fn uploads_view(v: Seq<Upload>) -> Seq<UploadV> {
    v.map_values(|u: Upload| u@)
}

fn add_upload(v: &mut Vec<Upload>, name: String, buf: Buf, how: UploadKind)
    ensures
        uploads_view(final(v)@) == uploads_view(old(v)@).push(UploadV { name: name@, buf, how }),
{
    let ghost before = uploads_view(v@);
    let u = Upload { name, buf, how };
    v.push(u);
    assert(uploads_view(v@) =~= before.push(u@));
}

/// The norm of a layer that is uploaded `i`-th: its name in the layer and its buffer.
pub open spec fn norm_of(layer: usize, i: int) -> (Seq<char>, Buf) {
    if i == 0 {
        ("attn_norm.weight"@, Buf::AttnNorm { layer })
    } else if i == 1 {
        ("attn_q_norm.weight"@, Buf::QNorm { layer })
    } else if i == 2 {
        ("attn_k_norm.weight"@, Buf::KNorm { layer })
    } else if i == 3 {
        ("post_attention_norm.weight"@, Buf::PostAttnNorm { layer })
    } else if i == 4 {
        ("ffn_norm.weight"@, Buf::FfnNorm { layer })
    } else if i == 5 {
        ("post_ffw_norm.weight"@, Buf::PostFfwNorm { layer })
    } else {
        ("post_norm.weight"@, Buf::PostNorm { layer })
    }
}

fn norm_tensor(layer: usize, i: usize) -> (r: (&'static str, Buf))
    requires
        i < 7,
    ensures
        (r.0@, r.1) == norm_of(layer, i as int),
{
    match i {
        0 => ("attn_norm.weight", Buf::AttnNorm { layer }),
        1 => ("attn_q_norm.weight", Buf::QNorm { layer }),
        2 => ("attn_k_norm.weight", Buf::KNorm { layer }),
        3 => ("post_attention_norm.weight", Buf::PostAttnNorm { layer }),
        4 => ("ffn_norm.weight", Buf::FfnNorm { layer }),
        5 => ("post_ffw_norm.weight", Buf::PostFfwNorm { layer }),
        _ => ("post_norm.weight", Buf::PostNorm { layer }),
    }
}

/// The first `k` norms of a layer, behind `acc`.
pub open spec fn norm_uploads(acc: Seq<UploadV>, layer: usize, k: nat) -> Seq<UploadV>
    decreases k,
{
    if k == 0 {
        acc
    } else {
        let (name, buf) = norm_of(layer, k - 1);
        norm_uploads(acc, layer, (k - 1) as nat).push(
            UploadV { name: layer_name(layer as nat, name), buf, how: UploadKind::Half },
        )
    }
}

/// The norms of the first `n` layers, behind `acc`.
pub open spec fn all_norms(acc: Seq<UploadV>, n: nat) -> Seq<UploadV>
    decreases n,
{
    if n == 0 {
        acc
    } else {
        norm_uploads(all_norms(acc, (n - 1) as nat), (n - 1) as usize, 7)
    }
}

/// The first `k` matrices of a layer that are in the file, behind `acc`.
pub open spec fn matrix_uploads(
    acc: Seq<UploadV>,
    layer: usize,
    t: LayerTensors,
    k: nat,
) -> Seq<UploadV>
    decreases k,
{
    if k == 0 {
        acc
    } else {
        let before = matrix_uploads(acc, layer, t, (k - 1) as nat);
        let (which, ty) = t.nth(k - 1);
        let name = layer_name(layer as nat, which.name_of());
        match ty {
            None => before,
            Some(ty) => before.push(
                UploadV {
                    name,
                    buf: Buf::Weight { layer, which },
                    how: weight_upload(name, ty).0,
                },
            ),
        }
    }
}

/// The matrices of the first `n` layers, behind `acc`.
pub open spec fn all_matrices(acc: Seq<UploadV>, layers: Seq<LayerTensors>, n: nat) -> Seq<UploadV>
    decreases n,
{
    if n == 0 {
        acc
    } else {
        matrix_uploads(
            all_matrices(acc, layers, (n - 1) as nat),
            (n - 1) as usize,
            layers[n - 1],
            9,
        )
    }
}

/// Every upload, in order: the token embeddings, the norms, the matrices, and the table of
/// per-layer embeddings where it can be read packed.
pub open spec fn upload_list(cfg: GemmaConfig, inv: Inventory) -> Seq<UploadV> {
    let embd = UploadV {
        name: "token_embd.weight"@,
        buf: Buf::TokenEmbd,
        how: if inv.token_embd is Q4K {
            UploadKind::Raw
        } else {
            UploadKind::Half
        },
    };
    let out_norm = UploadV {
        name: "output_norm.weight"@,
        buf: Buf::OutputNorm,
        how: UploadKind::Half,
    };
    let ple_norm = UploadV {
        name: "per_layer_proj_norm.weight"@,
        buf: Buf::PleProjNorm,
        how: UploadKind::Half,
    };
    let norms = all_norms(
        Seq::<UploadV>::empty().push(embd).push(out_norm).push(ple_norm),
        cfg.n_layers as nat,
    );
    let projected = if inv.ple_model_proj {
        norms.push(
            UploadV {
                name: "per_layer_model_proj.weight"@,
                buf: Buf::PleModelProj,
                how: UploadKind::ScaleQuantizeQ4K,
            },
        )
    } else {
        norms
    };
    let matrices = all_matrices(projected, inv.layers@, cfg.n_layers as nat);
    if inv.ple_token_embd == Some(TensorType::Q5K) {
        matrices.push(
            UploadV {
                name: "per_layer_token_embd.weight"@,
                buf: Buf::PleEmbd,
                how: UploadKind::Raw,
            },
        )
    } else {
        matrices
    }
}

/// Lists every upload.
pub fn plan_uploads(cfg: &GemmaConfig, inv: &Inventory) -> (r: Vec<Upload>)
    requires
        inv.layers@.len() == cfg.n_layers,
    ensures
        uploads_view(r@) == upload_list(*cfg, *inv),
{
    let mut v: Vec<Upload> = Vec::new();
    assert(uploads_view(v@) =~= Seq::<UploadV>::empty());
    let embd_how = match inv.token_embd {
        TensorType::Q4K => UploadKind::Raw,
        _ => UploadKind::Half,
    };
    add_upload(&mut v, String::from_str("token_embd.weight"), Buf::TokenEmbd, embd_how);
    add_upload(&mut v, String::from_str("output_norm.weight"), Buf::OutputNorm, UploadKind::Half);
    add_upload(
        &mut v,
        String::from_str("per_layer_proj_norm.weight"),
        Buf::PleProjNorm,
        UploadKind::Half,
    );
    let ghost start = uploads_view(v@);
    let mut layer: usize = 0;
    while layer < cfg.n_layers
        invariant
            layer <= cfg.n_layers,
            uploads_view(v@) == all_norms(start, layer as nat),
        decreases cfg.n_layers - layer,
    {
        let ghost here = uploads_view(v@);
        let mut i: usize = 0;
        while i < 7
            invariant
                i <= 7,
                uploads_view(v@) == norm_uploads(here, layer, i as nat),
            decreases 7 - i,
        {
            let (name, buf) = norm_tensor(layer, i);
            add_upload(&mut v, layer_tensor(layer, name), buf, UploadKind::Half);
            i += 1;
        }
        layer += 1;
    }
    if inv.ple_model_proj {
        add_upload(
            &mut v,
            String::from_str("per_layer_model_proj.weight"),
            Buf::PleModelProj,
            UploadKind::ScaleQuantizeQ4K,
        );
    }
    let ghost projected = uploads_view(v@);
    let mut layer: usize = 0;
    while layer < cfg.n_layers
        invariant
            layer <= cfg.n_layers,
            inv.layers@.len() == cfg.n_layers,
            uploads_view(v@) == all_matrices(projected, inv.layers@, layer as nat),
        decreases cfg.n_layers - layer,
    {
        let ghost here = uploads_view(v@);
        let t = inv.layers[layer];
        let mut i: usize = 0;
        while i < 9
            invariant
                i <= 9,
                uploads_view(v@) == matrix_uploads(here, layer, t, i as nat),
            decreases 9 - i,
        {
            let (which, ty) = t.get(i);
            if let Some(ty) = ty {
                let name = layer_tensor(layer, which.name());
                let (how, _) = ensure_weight(name.as_str(), ty);
                add_upload(&mut v, name, Buf::Weight { layer, which }, how);
            }
            i += 1;
        }
        layer += 1;
    }
    if let Some(TensorType::Q5K) = inv.ple_token_embd {
        add_upload(
            &mut v,
            String::from_str("per_layer_token_embd.weight"),
            Buf::PleEmbd,
            UploadKind::Raw,
        );
    }
    v
}

/// The largest width, or a default where there is none.
pub open spec fn max_width(ffn: Seq<usize>) -> usize
    decreases ffn.len(),
{
    if ffn.len() == 0 {
        6144
    } else if ffn.len() == 1 {
        ffn[0]
    } else {
        let m = max_width(ffn.drop_last());
        if ffn.last() > m {
            ffn.last()
        } else {
            m
        }
    }
}

fn widest(ffn: &Vec<usize>) -> (r: usize)
    ensures
        r == max_width(ffn@),
        ffn@.len() > 0 ==> ffn@.contains(r),
{
    if ffn.len() == 0 {
        return 6144;
    }
    let mut m: usize = ffn[0];
    let mut i: usize = 1;
    assert(ffn@.take(1).len() == 1);
    while i < ffn.len()
        invariant
            1 <= i <= ffn@.len(),
            m == max_width(ffn@.take(i as int)),
            ffn@.contains(m),
        decreases ffn@.len() - i,
    {
        assert(ffn@.take(i + 1).drop_last() =~= ffn@.take(i as int));
        assert(ffn@.take(i + 1).last() == ffn@[i as int]);
        if ffn[i] > m {
            m = ffn[i];
        }
        i += 1;
    }
    assert(ffn@.take(ffn@.len() as int) =~= ffn@);
    m
}

/// The caches of the first `n` layers with keys and values of their own, behind `acc`.
pub open spec fn cache_sizes(
    cfg: GemmaConfig,
    max_seq: usize,
    acc: Seq<(Buf, usize)>,
    n: nat,
) -> Seq<(Buf, usize)>
    decreases n,
{
    if n == 0 {
        acc
    } else {
        let layer = (n - 1) as usize;
        let bytes = (max_seq * (cfg.hd(n - 1) / 32 * 18)) as usize;
        cache_sizes(cfg, max_seq, acc, (n - 1) as nat).push((Buf::KvK { layer }, bytes)).push(
            (Buf::KvV { layer }, bytes),
        )
    }
}

/// The attention parameters of the first `n` layers, behind `acc`.
pub open spec fn meta_sizes(acc: Seq<(Buf, usize)>, n: nat) -> Seq<(Buf, usize)>
    decreases n,
{
    if n == 0 {
        acc
    } else {
        meta_sizes(acc, (n - 1) as nat).push((Buf::Meta { layer: (n - 1) as usize }, 32))
    }
}

/// Every buffer and its bytes: caches, attention parameters, rotation tables, and activations for
/// a whole chunk.
pub open spec fn buffer_sizes(cfg: GemmaConfig, max_seq: usize) -> Seq<(Buf, usize)> {
    let t = PREFILL_CHUNK_SIZE;
    let hd = cfg.max_hd();
    let ff = max_width(cfg.ffn@);
    let ple = cfg.ple();
    let wide = if ple > ff {
        ple
    } else {
        ff as int
    };
    let x = (cfg.hidden * (2 * t)) as usize;
    let q = (cfg.n_heads * hd * (2 * t)) as usize;
    let kv = (cfg.n_kv * hd * (2 * t)) as usize;
    let p = (ple * (2 * t)) as usize;
    meta_sizes(
        cache_sizes(cfg, max_seq, Seq::empty(), cfg.owners() as nat),
        cfg.n_layers as nat,
    ).push((Buf::RopeSwa, (max_seq * cfg.head_dim_swa * 2) as usize)).push(
        (Buf::RopeFull, (max_seq * cfg.head_dim_full * 2) as usize),
    ).push((Buf::X, x)).push((Buf::X2, x)).push((Buf::TmpQ, q)).push((Buf::TmpK, kv)).push(
        (Buf::TmpV, kv),
    ).push((Buf::TmpO, q)).push(
        (Buf::TmpAttnMwg, (cfg.n_heads * (hd + 2) * (64 * t)) as usize),
    ).push((Buf::TmpFf1, (ff * (2 * t)) as usize)).push((Buf::TmpFf2, (ff * (2 * t)) as usize)).push(
        (Buf::TmpFf3, (wide * (2 * t)) as usize),
    ).push((Buf::Logits, (cfg.vocab * 2) as usize)).push((Buf::TokIdx { i: 0 }, 4)).push(
        (Buf::TokIdx { i: 1 }, 4),
    ).push((Buf::ChunkTok, (4 * t) as usize)).push((Buf::PleTok, p)).push(
        (Buf::PleStage { i: 0 }, (ple * 2) as usize),
    ).push((Buf::PleStage { i: 1 }, (ple * 2) as usize)).push((Buf::PleCtx, p)).push(
        (Buf::PleTmp, p),
    ).push((Buf::PleGate, (cfg.ple_dim * 2) as usize)).push(
        (Buf::PleU, (cfg.ple_dim * (2 * t)) as usize),
    ).push((Buf::PleProj, x))
}

/// Lists every buffer that is made empty, or filled with a rotation table.
pub fn plan_buffers(cfg: &GemmaConfig, max_seq: usize) -> (r: Vec<(Buf, usize)>)
    requires
        cfg.fits(max_seq),
    ensures
        r@ == buffer_sizes(*cfg, max_seq),
{
    let mut v: Vec<(Buf, usize)> = Vec::new();
    let owners: usize = cfg.n_kv_owners();
    let mut i: usize = 0;
    while i < owners
        invariant
            i <= owners,
            owners == cfg.owners(),
            owners <= cfg.n_layers,
            cfg.fits(max_seq),
            v@ == cache_sizes(*cfg, max_seq, Seq::empty(), i as nat),
        decreases owners - i,
    {
        let hd: usize = cfg.head_dim(i);
        proof {
            cfg.lemma_layer_fits(max_seq, i as int);
            lemma_mul_le(max_seq as int, (hd / 32 * 18) as int, max_seq as int, hd as int);
        }
        let bytes: usize = q40_nbytes(max_seq, hd);
        v.push((Buf::KvK { layer: i }, bytes));
        v.push((Buf::KvV { layer: i }, bytes));
        i += 1;
    }
    let ghost caches = v@;
    let mut i: usize = 0;
    while i < cfg.n_layers
        invariant
            i <= cfg.n_layers,
            v@ == meta_sizes(caches, i as nat),
        decreases cfg.n_layers - i,
    {
        v.push((Buf::Meta { layer: i }, 32));
        i += 1;
    }
    let t: usize = 2 * PREFILL_CHUNK_SIZE;
    let hd: usize = if cfg.head_dim_full >= cfg.head_dim_swa {
        cfg.head_dim_full
    } else {
        cfg.head_dim_swa
    };
    let ff: usize = widest(&cfg.ffn);
    proof {
        lemma_mul_le(
            max_seq as int,
            cfg.head_dim_swa as int,
            max_seq as int,
            cfg.max_hd() as int,
        );
        lemma_mul_le(
            max_seq as int,
            cfg.head_dim_full as int,
            max_seq as int,
            cfg.max_hd() as int,
        );
        lemma_mul_le(
            cfg.n_layers as int,
            cfg.ple_dim as int,
            cfg.n_layers as int,
            cfg.ple_dim as int,
        );
        assert(ff * t <= usize::MAX) by {
            if cfg.ffn@.len() > 0 {
                let k = choose|k: int| 0 <= k < cfg.ffn@.len() && cfg.ffn@[k] == ff;
                assert(mul_fits(cfg.ffn@[k] as int, 1, 2 * PREFILL_CHUNK_SIZE));
            }
        }
    }
    let ple: usize = cfg.ple_total();
    let wide: usize = if ple > ff {
        ple
    } else {
        ff
    };
    let x: usize = cfg.hidden * t;
    let q: usize = cfg.n_heads * hd * t;
    let kv: usize = cfg.n_kv * hd * t;
    let p: usize = ple * t;
    v.push((Buf::RopeSwa, max_seq * cfg.head_dim_swa * 2));
    v.push((Buf::RopeFull, max_seq * cfg.head_dim_full * 2));
    v.push((Buf::X, x));
    v.push((Buf::X2, x));
    v.push((Buf::TmpQ, q));
    v.push((Buf::TmpK, kv));
    v.push((Buf::TmpV, kv));
    v.push((Buf::TmpO, q));
    v.push((Buf::TmpAttnMwg, cfg.n_heads * (hd + 2) * (32 * t)));
    v.push((Buf::TmpFf1, ff * t));
    v.push((Buf::TmpFf2, ff * t));
    v.push((Buf::TmpFf3, wide * t));
    v.push((Buf::Logits, cfg.vocab * 2));
    v.push((Buf::TokIdx { i: 0 }, 4));
    v.push((Buf::TokIdx { i: 1 }, 4));
    v.push((Buf::ChunkTok, 2 * t));
    v.push((Buf::PleTok, p));
    v.push((Buf::PleStage { i: 0 }, ple * 2));
    v.push((Buf::PleStage { i: 1 }, ple * 2));
    v.push((Buf::PleCtx, p));
    v.push((Buf::PleTmp, p));
    v.push((Buf::PleGate, cfg.ple_dim * 2));
    v.push((Buf::PleU, cfg.ple_dim * t));
    v.push((Buf::PleProj, x));
    v
}

/// The element type of a matrix on the device; that of one that is not in the file is never asked.
pub open spec fn kept_type(layer: usize, which: LayerWeight, ty: Option<TensorType>) -> DType {
    match ty {
        Some(t) => weight_upload(layer_name(layer as nat, which.name_of()), t).1,
        None => DType::F16,
    }
}

fn find_type(layer: usize, which: LayerWeight, ty: Option<TensorType>) -> (r: DType)
    ensures
        r == kept_type(layer, which, ty),
{
    match ty {
        Some(t) => ensure_weight(layer_tensor(layer, which.name()).as_str(), t).1,
        None => DType::F16,
    }
}

/// The element types of the matrices of a layer.
pub open spec fn types_of(layer: usize, t: LayerTensors) -> LayerTypes {
    LayerTypes {
        q: kept_type(layer, LayerWeight::AttnQ, t.q),
        k: kept_type(layer, LayerWeight::AttnK, t.k),
        v: kept_type(layer, LayerWeight::AttnV, t.v),
        output: kept_type(layer, LayerWeight::AttnOutput, t.output),
        gate: kept_type(layer, LayerWeight::FfnGate, t.gate),
        up: kept_type(layer, LayerWeight::FfnUp, t.up),
        down: kept_type(layer, LayerWeight::FfnDown, t.down),
        inp_gate: kept_type(layer, LayerWeight::InpGate, t.inp_gate),
        proj: kept_type(layer, LayerWeight::Proj, t.proj),
    }
}

/// Whether the file holds every matrix of a layer that a pass asks for.
pub open spec fn layer_complete(t: LayerTensors, owns: bool) -> bool {
    &&& t.q is Some && t.output is Some && t.gate is Some && t.up is Some && t.down is Some
    &&& t.inp_gate is Some && t.proj is Some
    &&& owns ==> t.k is Some && t.v is Some
}

/// Whether the file holds everything that a pass asks for.
pub open spec fn complete(cfg: GemmaConfig, inv: Inventory) -> bool {
    &&& inv.ple_model_proj
    &&& inv.layers@.len() == cfg.n_layers
    &&& inv.layer_scales@.len() == cfg.n_layers
    &&& forall|i: int|
        0 <= i < cfg.n_layers ==> layer_complete(#[trigger] inv.layers@[i], i < cfg.owners())
}

/// The rows and columns of the products that are tuned beforehand.
pub open spec fn tuned(cfg: GemmaConfig, layer: int, p: (usize, usize)) -> bool {
    let h = cfg.hidden;
    let m = meta_of(cfg, layer);
    ||| p == (m.q_rows, h)
    ||| p == (h, m.q_rows)
    ||| p == (m.kv_rows, h)
    ||| p == (m.ffn_inter, h)
    ||| p == (h, m.ffn_inter)
    ||| p == (cfg.ple_dim, h)
    ||| p == (h, cfg.ple_dim)
}

/// The order of dimensions: by rows, then by columns.
pub open spec fn before(a: (usize, usize), b: (usize, usize)) -> bool {
    a.0 < b.0 || (a.0 == b.0 && a.1 < b.1)
}

pub open spec fn in_order(v: Seq<(usize, usize)>) -> bool {
    forall|i: int, j: int| 0 <= i < j < v.len() ==> before(#[trigger] v[i], #[trigger] v[j])
}

fn insert_shape(v: &mut Vec<(usize, usize)>, p: (usize, usize))
    requires
        in_order(old(v)@),
    ensures
        in_order(final(v)@),
        forall|q: (usize, usize)|
            #[trigger] final(v)@.contains(q) <==> old(v)@.contains(q) || q == p,
{
    let ghost was = v@;
    let mut i: usize = 0;
    while i < v.len() && (v[i].0 < p.0 || (v[i].0 == p.0 && v[i].1 < p.1))
        invariant
            i <= v@.len(),
            v@ == was,
            was == old(v)@,
            in_order(was),
            forall|k: int| 0 <= k < i ==> before(#[trigger] v@[k], p),
        decreases v@.len() - i,
    {
        i += 1;
    }
    if i < v.len() && v[i].0 == p.0 && v[i].1 == p.1 {
        assert(was[i as int] == p);
        assert(was.contains(p));
        return;
    }
    v.insert(i, p);
    proof {
        assert(v@ == was.insert(i as int, p));
        assert forall|a: int, b: int| 0 <= a < b < v@.len() implies before(
            #[trigger] v@[a],
            #[trigger] v@[b],
        ) by {
            let x = if a < i {
                a
            } else {
                a - 1
            };
            let y = if b < i {
                b
            } else {
                b - 1
            };
            if a != i {
                assert(v@[a] == was[x]);
            }
            if b != i {
                assert(v@[b] == was[y]);
            }
            if a == i {
                assert(before(p, was[i as int]));
                if y > i {
                    assert(before(was[i as int], was[y]));
                }
            } else if b == i {
                assert(before(was[x], p));
            } else {
                assert(before(was[x], was[y]));
            }
        }
        assert forall|q: (usize, usize)| #[trigger]
            v@.contains(q) <==> was.contains(q) || q == p by {
            if was.contains(q) {
                let k = choose|k: int| 0 <= k < was.len() && was[k] == q;
                if k < i {
                    assert(v@[k] == q);
                } else {
                    assert(v@[k + 1] == q);
                }
            }
            if q == p {
                assert(v@[i as int] == p);
            }
            if v@.contains(q) && q != p {
                let k = choose|k: int| 0 <= k < v@.len() && v@[k] == q;
                if k < i {
                    assert(was[k] == q);
                } else {
                    assert(was[k - 1] == q);
                }
            }
        }
    }
}

/// Lists the products that are tuned beforehand, in order and each once: those of every layer, and
/// the one that makes the per-layer contexts.
pub fn plan_shapes(cfg: &GemmaConfig, max_seq: usize) -> (r: Vec<(usize, usize)>)
    requires
        cfg.fits(max_seq),
    ensures
        in_order(r@),
        forall|p: (usize, usize)| #[trigger]
            r@.contains(p) <==> p == (cfg.ple() as usize, cfg.hidden) || exists|l: int|
                0 <= l < cfg.n_layers && #[trigger] tuned(*cfg, l, p),
{
    let mut v: Vec<(usize, usize)> = Vec::new();
    let h: usize = cfg.hidden;
    let mut layer: usize = 0;
    while layer < cfg.n_layers
        invariant
            layer <= cfg.n_layers,
            cfg.fits(max_seq),
            h == cfg.hidden,
            in_order(v@),
            forall|p: (usize, usize)| #[trigger]
                v@.contains(p) <==> exists|l: int| 0 <= l < layer && #[trigger] tuned(*cfg, l, p),
        decreases cfg.n_layers - layer,
    {
        let ghost was = v@;
        let hd: usize = cfg.head_dim(layer);
        proof {
            cfg.lemma_layer_fits(max_seq, layer as int);
        }
        let q: usize = cfg.n_heads * hd;
        let kv: usize = cfg.n_kv * hd;
        let ff: usize = cfg.ffn[layer];
        insert_shape(&mut v, (q, h));
        insert_shape(&mut v, (h, q));
        insert_shape(&mut v, (kv, h));
        insert_shape(&mut v, (ff, h));
        insert_shape(&mut v, (h, ff));
        insert_shape(&mut v, (cfg.ple_dim, h));
        insert_shape(&mut v, (h, cfg.ple_dim));
        proof {
            assert forall|p: (usize, usize)| #[trigger]
                v@.contains(p) <==> exists|l: int|
                    0 <= l < layer + 1 && #[trigger] tuned(*cfg, l, p) by {
                assert(v@.contains(p) <==> was.contains(p) || tuned(*cfg, layer as int, p));
                if was.contains(p) {
                    let l = choose|l: int| 0 <= l < layer && #[trigger] tuned(*cfg, l, p);
                    assert(tuned(*cfg, l, p));
                }
            }
        }
        layer += 1;
    }
    proof {
        lemma_mul_le(
            cfg.n_layers as int,
            cfg.ple_dim as int,
            cfg.n_layers as int,
            cfg.ple_dim as int,
        );
    }
    insert_shape(&mut v, (cfg.ple_total(), h));
    v
}

impl GemmaPrimModel {
    /// A model as it is loaded: at its first position, greedy.
    pub fn load(cfg: GemmaConfig, max_seq: usize, inv: &Inventory) -> (r: Option<GemmaPrimModel>)
        requires
            cfg.fits(max_seq),
        ensures
            r is Some <==> complete(cfg, *inv),
            r matches Some(m) ==> {
                &&& m.wf()
                &&& m.cfg == cfg
                &&& m.types@ == Seq::new(
                    cfg.n_layers as nat,
                    |i: int| types_of(i as usize, inv.layers@[i]),
                )
                &&& m.layer_scales@ == inv.layer_scales@
                &&& m.embd_dtype == (if inv.token_embd is Q4K {
                    DType::Q4K
                } else {
                    DType::F16
                })
                &&& m.ple_packed == (inv.ple_token_embd == Some(TensorType::Q5K))
                &&& m.embed_scale == inv.embed_scale
                &&& m.ple_scale == inv.ple_scale
                &&& m.slot is None
                &&& m.max_seq == max_seq
                &&& m.pos == 0
                &&& m.decode_src == 0
                &&& m.return_token_sync
                &&& m.sample_temperature == 0
                &&& m.sample_min_p == DEFAULT_MIN_P
                &&& m.sample_seed == 1
            },
    {
        if !inv.ple_model_proj || inv.layers.len() != cfg.n_layers || inv.layer_scales.len()
            != cfg.n_layers {
            return None;
        }
        let mut layers: Vec<LayerMeta> = Vec::new();
        let mut types: Vec<LayerTypes> = Vec::new();
        let mut scales: Vec<u32> = Vec::new();
        let mut i: usize = 0;
        while i < cfg.n_layers
            invariant
                i <= cfg.n_layers,
                cfg.fits(max_seq),
                inv.ple_model_proj,
                inv.layers@.len() == cfg.n_layers,
                inv.layer_scales@.len() == cfg.n_layers,
                layers@ == Seq::new(i as nat, |k: int| meta_of(cfg, k)),
                types@ == Seq::new(i as nat, |k: int| types_of(k as usize, inv.layers@[k])),
                scales@ == inv.layer_scales@.take(i as int),
                forall|k: int|
                    0 <= k < i ==> layer_complete(#[trigger] inv.layers@[k], k < cfg.owners()),
            decreases cfg.n_layers - i,
        {
            let t = inv.layers[i];
            let owns: bool = cfg.owns_kv(i);
            if t.q.is_none() || t.output.is_none() || t.gate.is_none() || t.up.is_none()
                || t.down.is_none() || t.inp_gate.is_none() || t.proj.is_none() || (owns && (
            t.k.is_none() || t.v.is_none())) {
                assert(!layer_complete(inv.layers@[i as int], i < cfg.owners()));
                return None;
            }
            proof {
                cfg.lemma_layer_fits(max_seq, i as int);
            }
            let hd: usize = cfg.head_dim(i);
            layers.push(
                LayerMeta {
                    q_rows: cfg.n_heads * hd,
                    kv_rows: cfg.n_kv * hd,
                    o_in: cfg.n_heads * hd,
                    ffn_inter: cfg.ffn[i],
                    hd,
                },
            );
            types.push(
                LayerTypes {
                    q: find_type(i, LayerWeight::AttnQ, t.q),
                    k: find_type(i, LayerWeight::AttnK, t.k),
                    v: find_type(i, LayerWeight::AttnV, t.v),
                    output: find_type(i, LayerWeight::AttnOutput, t.output),
                    gate: find_type(i, LayerWeight::FfnGate, t.gate),
                    up: find_type(i, LayerWeight::FfnUp, t.up),
                    down: find_type(i, LayerWeight::FfnDown, t.down),
                    inp_gate: find_type(i, LayerWeight::InpGate, t.inp_gate),
                    proj: find_type(i, LayerWeight::Proj, t.proj),
                },
            );
            scales.push(inv.layer_scales[i]);
            assert(layers@ =~= Seq::new((i + 1) as nat, |k: int| meta_of(cfg, k)));
            assert(types@ =~= Seq::new(
                (i + 1) as nat,
                |k: int| types_of(k as usize, inv.layers@[k]),
            ));
            assert(scales@ =~= inv.layer_scales@.take(i + 1));
            i += 1;
        }
        assert(scales@ =~= inv.layer_scales@);
        let kv_layers: usize = cfg.n_kv_owners();
        Some(
            GemmaPrimModel {
                cfg,
                layers,
                types,
                layer_scales: scales,
                embd_dtype: match inv.token_embd {
                    TensorType::Q4K => DType::Q4K,
                    _ => DType::F16,
                },
                ple_packed: match inv.ple_token_embd {
                    Some(TensorType::Q5K) => true,
                    _ => false,
                },
                embed_scale: inv.embed_scale,
                ple_scale: inv.ple_scale,
                kv_layers,
                slot: None,
                max_seq,
                pos: 0,
                decode_src: 0,
                return_token_sync: true,
                sample_temperature: 0,
                sample_min_p: DEFAULT_MIN_P,
                sample_seed: 1,
            },
        )
    }

    /// The steps that compile the row gathers of a model before its first token.
    pub open spec fn warm_steps(self) -> Seq<Step> {
        if !self.ple_packed {
            Seq::empty()
        } else {
            let first = match self.embed_idx_call(0) {
                Ok(call) => Seq::<Step>::empty().push(Step::Run { call }),
                Err(_) => Seq::empty(),
            };
            first.push(
                Step::Run {
                    call: Eng::copy_scale_indexed_wd(
                        self.cfg.ple() as usize,
                        self.ple_scale,
                        DType::Q5K,
                        Buf::PleEmbd,
                        Buf::TokIdx { i: 0 },
                        Buf::PleTok,
                    ),
                },
            ).push(Step::Synchronize)
        }
    }

    pub fn plan_warmup(&self) -> (r: Vec<Step>)
        requires
            self.wf(),
        ensures
            r@ == self.warm_steps(),
    {
        let mut out: Vec<Step> = Vec::new();
        if self.ple_packed {
            if let Ok(call) = self.embed_from_idx(0) {
                out.push(Step::Run { call });
            }
            proof {
                self.lemma_ple();
            }
            out.push(
                Step::Run {
                    call: Eng::copy_scale_indexed_wd(
                        self.cfg.ple_total(),
                        self.ple_scale,
                        DType::Q5K,
                        Buf::PleEmbd,
                        Buf::TokIdx { i: 0 },
                        Buf::PleTok,
                    ),
                },
            );
            out.push(Step::Synchronize);
        }
        out
    }

    /// The row of a position lies within the rotation table. The rows of a position, one for each
    /// key head, lie within the cache of its layer, and those of two positions do not overlap,
    /// where the positions are as far from each other and from the end as there are key heads.
    pub proof fn lemma_rows_lie_inside(self, layer: int, a: usize, b: usize)
        requires
            self.wf(),
            0 <= layer < self.cfg.n_layers,
            a + self.cfg.n_kv <= b,
            b < self.max_seq,
            b + self.cfg.n_kv <= self.max_seq,
        ensures
            ({
                let hd = self.cfg.hd(layer) as int;
                let row = hd / 32 * 18;
                let n = self.cfg.n_kv as int;
                &&& (b + 1) * hd * 2 <= self.max_seq * hd * 2
                &&& b * row + n * row <= self.max_seq * row
                &&& a * row + n * row <= b * row
            }),
    {
        let hd = self.cfg.hd(layer) as int;
        let row = hd / 32 * 18;
        let n = self.cfg.n_kv as int;
        lemma_mul_le(b + 1, hd, self.max_seq as int, hd);
        lemma_mul_le(b + n, row, self.max_seq as int, row);
        lemma_mul_le(a + n, row, b as int, row);
        assert((b + n) * row == b * row + n * row && (a + n) * row == a * row + n * row)
            by (nonlinear_arith);
    }
}

/// The bit pattern of 0.05.
pub const DEFAULT_MIN_P: u32 = 0x3D4CCCCD;

} // verus!
