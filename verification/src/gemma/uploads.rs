//! What loading brings to the device: every tensor under its name in the buffer that the plans
//! read, packed as the model believes.

use vstd::prelude::*;
use vstd::string::*;

use crate::gemma::config::GemmaConfig;
use crate::gemma::load::{
    all_matrices, all_norms, kept_type, matrix_uploads, norm_of, norm_uploads, upload_list,
    weight_upload, Inventory, LayerTensors, TensorType, UploadKind, UploadV,
};
use crate::ir::dtype::DType;
use crate::kernels::buffer::{layer_name, Buf, LayerWeight};
use crate::text::{dec, ends_with};

verus! {

/// Whether the tensor `name` is brought to a buffer in this way.
pub open spec fn brought(l: Seq<UploadV>, name: Seq<char>, buf: Buf, how: UploadKind) -> bool {
    l.contains(UploadV { name, buf, how })
}

/// The name of a tensor in a file: `blk`, the number of its layer and its own name, with dots
/// between them.
pub open spec fn in_layer(layer: int, name: Seq<char>) -> Seq<char> {
    "blk."@ + dec(layer as nat) + "."@ + name
}

/// How a stored matrix is packed on the device: Q4_K, or Q6_K where it was stored so and neither
/// goes back from the feed-forward width nor makes values.
pub open spec fn packed_as(which: LayerWeight, ty: TensorType) -> DType {
    if ty is Q6K && !(which is FfnDown || which is AttnV) {
        DType::Q6K
    } else {
        DType::Q4K
    }
}

/// How a stored matrix gets to be packed so: as it is, where it was stored so.
pub open spec fn brought_as(which: LayerWeight, ty: TensorType) -> UploadKind {
    if (ty is Q4K && packed_as(which, ty) is Q4K) || (ty is Q6K && packed_as(which, ty) is Q6K) {
        UploadKind::Raw
    } else {
        UploadKind::QuantizeQ4K
    }
}

proof fn lemma_kept(l: Seq<UploadV>, more: Seq<UploadV>, u: UploadV)
    requires
        l.contains(u),
        l.len() <= more.len(),
        forall|i: int| 0 <= i < l.len() ==> l[i] == #[trigger] more[i],
    ensures
        more.contains(u),
{
    let i = choose|i: int| 0 <= i < l.len() && l[i] == u;
    assert(more[i] == u);
}

/// Whether a list begins with another.
pub open spec fn begins(more: Seq<UploadV>, l: Seq<UploadV>) -> bool {
    &&& l.len() <= more.len()
    &&& forall|i: int| 0 <= i < l.len() ==> l[i] == #[trigger] more[i]
}

proof fn lemma_norms(acc: Seq<UploadV>, layer: usize, k: nat)
    ensures
        begins(norm_uploads(acc, layer, k), acc),
        forall|i: int|
            0 <= i < k ==> #[trigger] brought(
                norm_uploads(acc, layer, k),
                layer_name(layer as nat, norm_of(layer, i).0),
                norm_of(layer, i).1,
                UploadKind::Half,
            ),
    decreases k,
{
    if k > 0 {
        lemma_norms(acc, layer, (k - 1) as nat);
        let before = norm_uploads(acc, layer, (k - 1) as nat);
        let now = norm_uploads(acc, layer, k);
        let (name, buf) = norm_of(layer, k - 1);
        let u = UploadV { name: layer_name(layer as nat, name), buf, how: UploadKind::Half };
        assert(now == before.push(u));
        assert(now[before.len() as int] == u);
        assert forall|i: int| 0 <= i < k implies #[trigger] brought(
            now,
            layer_name(layer as nat, norm_of(layer, i).0),
            norm_of(layer, i).1,
            UploadKind::Half,
        ) by {
            if i < k - 1 {
                assert(brought(
                    before,
                    layer_name(layer as nat, norm_of(layer, i).0),
                    norm_of(layer, i).1,
                    UploadKind::Half,
                ));
                lemma_kept(
                    before,
                    now,
                    UploadV {
                        name: layer_name(layer as nat, norm_of(layer, i).0),
                        buf: norm_of(layer, i).1,
                        how: UploadKind::Half,
                    },
                );
            }
        }
    }
}

proof fn lemma_all_norms(acc: Seq<UploadV>, n: nat, layer: usize, i: int)
    requires
        n <= usize::MAX,
    ensures
        begins(all_norms(acc, n), acc),
        layer < n && 0 <= i < 7 ==> brought(
            all_norms(acc, n),
            layer_name(layer as nat, norm_of(layer, i).0),
            norm_of(layer, i).1,
            UploadKind::Half,
        ),
    decreases n,
{
    if n > 0 {
        lemma_all_norms(acc, (n - 1) as nat, layer, i);
        let before = all_norms(acc, (n - 1) as nat);
        lemma_norms(before, (n - 1) as usize, 7);
        if layer < n - 1 && 0 <= i < 7 {
            lemma_kept(
                before,
                all_norms(acc, n),
                UploadV {
                    name: layer_name(layer as nat, norm_of(layer, i).0),
                    buf: norm_of(layer, i).1,
                    how: UploadKind::Half,
                },
            );
        } else if layer == n - 1 && 0 <= i < 7 {
            assert(brought(
                norm_uploads(before, layer, 7),
                layer_name(layer as nat, norm_of(layer, i).0),
                norm_of(layer, i).1,
                UploadKind::Half,
            ));
        }
    }
}

/// The upload of a matrix of a layer.
pub open spec fn matrix_upload(layer: usize, which: LayerWeight, ty: TensorType) -> UploadV {
    let name = layer_name(layer as nat, which.name_of());
    UploadV { name, buf: Buf::Weight { layer, which }, how: weight_upload(name, ty).0 }
}

proof fn lemma_matrices(acc: Seq<UploadV>, layer: usize, t: LayerTensors, k: nat, i: int)
    ensures
        begins(matrix_uploads(acc, layer, t, k), acc),
        0 <= i < k && t.nth(i).1 is Some ==> matrix_uploads(acc, layer, t, k).contains(
            matrix_upload(layer, t.nth(i).0, t.nth(i).1->0),
        ),
    decreases k,
{
    if k > 0 {
        lemma_matrices(acc, layer, t, (k - 1) as nat, i);
        let before = matrix_uploads(acc, layer, t, (k - 1) as nat);
        let now = matrix_uploads(acc, layer, t, k);
        let (which, ty) = t.nth(k - 1);
        if ty is Some {
            let u = matrix_upload(layer, which, ty->0);
            assert(now == before.push(u));
            assert(now[before.len() as int] == u);
        }
        if 0 <= i < k - 1 && t.nth(i).1 is Some {
            lemma_kept(before, now, matrix_upload(layer, t.nth(i).0, t.nth(i).1->0));
        }
    }
}

proof fn lemma_all_matrices(
    acc: Seq<UploadV>,
    layers: Seq<LayerTensors>,
    n: nat,
    layer: usize,
    i: int,
)
    requires
        n <= usize::MAX,
    ensures
        begins(all_matrices(acc, layers, n), acc),
        ({
            let (which, ty) = layers[layer as int].nth(i);
            layer < n && 0 <= i < 9 && ty is Some ==> all_matrices(acc, layers, n).contains(
                matrix_upload(layer, which, ty->0),
            )
        }),
    decreases n,
{
    if n > 0 {
        lemma_all_matrices(acc, layers, (n - 1) as nat, layer, i);
        let before = all_matrices(acc, layers, (n - 1) as nat);
        lemma_matrices(before, (n - 1) as usize, layers[n - 1], 9, i);
        let (which, ty) = layers[layer as int].nth(i);
        if layer < n - 1 && 0 <= i < 9 && ty is Some {
            lemma_kept(before, all_matrices(acc, layers, n), matrix_upload(layer, which, ty->0));
        }
    }
}

proof fn lemma_last_letters(front: Seq<char>, name: Seq<char>, end: Seq<char>)
    requires
        name.len() >= 8,
        end.len() >= 8,
        name[name.len() - 8] != end[end.len() - 8],
    ensures
        !ends_with(front + name, end),
{
    let s = front + name;
    assert(s[s.len() - 8] == name[name.len() - 8]);
    if ends_with(s, end) {
        assert(s.skip(s.len() - end.len())[end.len() - 8] == s[s.len() - 8]);
    }
}

/// Matrices are packed as told by the name that they are stored under.
proof fn lemma_packed(layer: nat, which: LayerWeight, ty: TensorType)
    ensures
        weight_upload(layer_name(layer, which.name_of()), ty) == (
            brought_as(which, ty),
            packed_as(which, ty),
        ),
{
    let front = "blk."@ + dec(layer) + "."@;
    let name = which.name_of();
    let down = "ffn_down.weight"@;
    let values = "attn_v.weight"@;
    reveal_strlit("ffn_down.weight");
    reveal_strlit("attn_v.weight");
    reveal_strlit("attn_q.weight");
    reveal_strlit("attn_k.weight");
    reveal_strlit("attn_output.weight");
    reveal_strlit("ffn_gate.weight");
    reveal_strlit("ffn_up.weight");
    reveal_strlit("inp_gate.weight");
    reveal_strlit("proj.weight");
    if which is FfnDown {
        assert((front + name).skip((front + name).len() - down.len()) =~= down);
    } else if which is AttnV {
        assert((front + name).skip((front + name).len() - values.len()) =~= values);
    } else {
        lemma_last_letters(front, name, down);
        lemma_last_letters(front, name, values);
    }
}

/// The matrix that a layer stores for a purpose.
pub open spec fn stored(t: LayerTensors, which: LayerWeight) -> Option<TensorType> {
    match which {
        LayerWeight::AttnQ => t.q,
        LayerWeight::AttnK => t.k,
        LayerWeight::AttnV => t.v,
        LayerWeight::AttnOutput => t.output,
        LayerWeight::FfnGate => t.gate,
        LayerWeight::FfnUp => t.up,
        LayerWeight::FfnDown => t.down,
        LayerWeight::InpGate => t.inp_gate,
        LayerWeight::Proj => t.proj,
    }
}

/// The name that a matrix is stored under in its layer.
pub open spec fn file_name(which: LayerWeight) -> Seq<char> {
    match which {
        LayerWeight::AttnQ => "attn_q.weight"@,
        LayerWeight::AttnK => "attn_k.weight"@,
        LayerWeight::AttnV => "attn_v.weight"@,
        LayerWeight::AttnOutput => "attn_output.weight"@,
        LayerWeight::FfnGate => "ffn_gate.weight"@,
        LayerWeight::FfnUp => "ffn_up.weight"@,
        LayerWeight::FfnDown => "ffn_down.weight"@,
        LayerWeight::InpGate => "inp_gate.weight"@,
        LayerWeight::Proj => "proj.weight"@,
    }
}

/// Every matrix of every layer that the file has is brought to its own buffer, packed as the model
/// then believes.
pub proof fn lemma_matrices_are_brought(
    cfg: GemmaConfig,
    inv: Inventory,
    layer: usize,
    which: LayerWeight,
)
    requires
        layer < cfg.n_layers,
        stored(inv.layers@[layer as int], which) is Some,
    ensures
        ({
            let ty = stored(inv.layers@[layer as int], which);
            let how = brought_as(which, ty->0);
            &&& brought(
                upload_list(cfg, inv),
                in_layer(layer as int, file_name(which)),
                Buf::Weight { layer, which },
                how,
            )
            &&& kept_type(layer, which, ty) == packed_as(which, ty->0)
        }),
{
    let ty = stored(inv.layers@[layer as int], which);
    let i: int = match which {
        LayerWeight::AttnQ => 0,
        LayerWeight::AttnK => 1,
        LayerWeight::AttnV => 2,
        LayerWeight::AttnOutput => 3,
        LayerWeight::FfnGate => 4,
        LayerWeight::FfnUp => 5,
        LayerWeight::FfnDown => 6,
        LayerWeight::InpGate => 7,
        LayerWeight::Proj => 8,
    };
    lemma_packed(layer as nat, which, ty->0);
    let acc = listed_before(cfg, inv);
    lemma_all_matrices(acc, inv.layers@, cfg.n_layers as nat, layer, i);
    let u = matrix_upload(layer, which, ty->0);
    let l = all_matrices(acc, inv.layers@, cfg.n_layers as nat);
    assert(l.contains(u));
    lemma_kept(l, upload_list(cfg, inv), u);
}

/// What is listed before the norms of the layers.
spec fn listed_first(inv: Inventory) -> Seq<UploadV> {
    Seq::<UploadV>::empty().push(
        UploadV {
            name: "token_embd.weight"@,
            buf: Buf::TokenEmbd,
            how: if inv.token_embd is Q4K {
                UploadKind::Raw
            } else {
                UploadKind::Half
            },
        },
    ).push(
        UploadV { name: "output_norm.weight"@, buf: Buf::OutputNorm, how: UploadKind::Half },
    ).push(
        UploadV {
            name: "per_layer_proj_norm.weight"@,
            buf: Buf::PleProjNorm,
            how: UploadKind::Half,
        },
    )
}

/// What is listed before the matrices.
spec fn listed_before(cfg: GemmaConfig, inv: Inventory) -> Seq<UploadV> {
    let norms = all_norms(listed_first(inv), cfg.n_layers as nat);
    if inv.ple_model_proj {
        norms.push(
            UploadV {
                name: "per_layer_model_proj.weight"@,
                buf: Buf::PleModelProj,
                how: UploadKind::ScaleQuantizeQ4K,
            },
        )
    } else {
        norms
    }
}

proof fn lemma_norm_kept(cfg: GemmaConfig, inv: Inventory, layer: usize, i: int)
    requires
        layer < cfg.n_layers,
        0 <= i < 7,
    ensures
        brought(
            upload_list(cfg, inv),
            layer_name(layer as nat, norm_of(layer, i).0),
            norm_of(layer, i).1,
            UploadKind::Half,
        ),
{
    let n = cfg.n_layers as nat;
    let acc = listed_before(cfg, inv);
    lemma_all_matrices(acc, inv.layers@, n, 0, 0);
    let norms = all_norms(listed_first(inv), n);
    lemma_all_norms(listed_first(inv), n, layer, i);
    let u = UploadV {
        name: layer_name(layer as nat, norm_of(layer, i).0),
        buf: norm_of(layer, i).1,
        how: UploadKind::Half,
    };
    lemma_kept(norms, acc, u);
    lemma_kept(acc, all_matrices(acc, inv.layers@, n), u);
    lemma_kept(all_matrices(acc, inv.layers@, n), upload_list(cfg, inv), u);
}

/// The embeddings, the last norm and what makes the per-layer embeddings are brought to their own
/// buffers; the table of per-layer embeddings only where the device can read it packed.
pub proof fn lemma_rest_is_brought(cfg: GemmaConfig, inv: Inventory)
    ensures
        ({
            let l = upload_list(cfg, inv);
            let packed = if inv.token_embd is Q4K {
                UploadKind::Raw
            } else {
                UploadKind::Half
            };
            &&& brought(l, "token_embd.weight"@, Buf::TokenEmbd, packed)
            &&& brought(l, "output_norm.weight"@, Buf::OutputNorm, UploadKind::Half)
            &&& brought(l, "per_layer_proj_norm.weight"@, Buf::PleProjNorm, UploadKind::Half)
            &&& inv.ple_model_proj ==> brought(
                l,
                "per_layer_model_proj.weight"@,
                Buf::PleModelProj,
                UploadKind::ScaleQuantizeQ4K,
            )
            &&& inv.ple_token_embd == Some(TensorType::Q5K) ==> brought(
                l,
                "per_layer_token_embd.weight"@,
                Buf::PleEmbd,
                UploadKind::Raw,
            )
        }),
{
    let n = cfg.n_layers as nat;
    let first = listed_first(inv);
    let norms = all_norms(first, n);
    let acc = listed_before(cfg, inv);
    let matrices = all_matrices(acc, inv.layers@, n);
    let l = upload_list(cfg, inv);
    lemma_all_norms(first, n, 0, 0);
    lemma_all_matrices(acc, inv.layers@, n, 0, 0);
    assert(begins(l, matrices));
    assert(begins(l, acc));
    assert(begins(l, norms));
    assert(l[0] == first[0]);
    assert(l[1] == first[1]);
    assert(l[2] == first[2]);
    if inv.ple_model_proj {
        assert(l[norms.len() as int] == acc.last());
    }
    if inv.ple_token_embd == Some(TensorType::Q5K) {
        assert(l[matrices.len() as int] == l.last());
    }
}

/// Every norm of every layer is brought to its own buffer.
pub proof fn lemma_norms_are_brought(cfg: GemmaConfig, inv: Inventory, layer: usize)
    requires
        layer < cfg.n_layers,
    ensures
        ({
            let l = upload_list(cfg, inv);
            let n = layer as int;
            let half = UploadKind::Half;
            &&& brought(l, in_layer(n, "attn_norm.weight"@), Buf::AttnNorm { layer }, half)
            &&& brought(l, in_layer(n, "attn_q_norm.weight"@), Buf::QNorm { layer }, half)
            &&& brought(l, in_layer(n, "attn_k_norm.weight"@), Buf::KNorm { layer }, half)
            &&& brought(
                l,
                in_layer(n, "post_attention_norm.weight"@),
                Buf::PostAttnNorm { layer },
                half,
            )
            &&& brought(l, in_layer(n, "ffn_norm.weight"@), Buf::FfnNorm { layer }, half)
            &&& brought(l, in_layer(n, "post_ffw_norm.weight"@), Buf::PostFfwNorm { layer }, half)
            &&& brought(l, in_layer(n, "post_norm.weight"@), Buf::PostNorm { layer }, half)
        }),
{
    lemma_norm_kept(cfg, inv, layer, 0);
    lemma_norm_kept(cfg, inv, layer, 1);
    lemma_norm_kept(cfg, inv, layer, 2);
    lemma_norm_kept(cfg, inv, layer, 3);
    lemma_norm_kept(cfg, inv, layer, 4);
    lemma_norm_kept(cfg, inv, layer, 5);
    lemma_norm_kept(cfg, inv, layer, 6);
}

} // verus!
