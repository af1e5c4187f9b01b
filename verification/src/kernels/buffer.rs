//! The buffers that a model keeps on the device.

use vstd::prelude::*;
use vstd::string::*;

use crate::text::{dec, dec_usize};

verus! {

/// The matrices of a layer.
#[derive(Clone, Copy, Debug, PartialEq, Eq, Structural)]
pub enum LayerWeight {
    AttnQ,
    AttnK,
    AttnV,
    AttnOutput,
    FfnGate,
    FfnUp,
    FfnDown,
    InpGate,
    Proj,
}

impl LayerWeight {
    /// The name of the matrix within its layer.
    pub open spec fn name_of(self) -> Seq<char> {
        match self {
            LayerWeight::AttnQ => "attn_q.weight"@,
            LayerWeight::AttnK => "attn_k.weight"@,
            LayerWeight::AttnV => "attn_v.weight"@,
            LayerWeight::AttnOutput => "attn_output.weight"@,
            LayerWeight::FfnGate => "ffn_gate.weight"@,
            LayerWeight::FfnUp => "ffn_up.weight"@,
            LayerWeight::FfnDown => "ffn_down.weight"@,
            LayerWeight::InpGate => "inp_gate.weight"@,
            LayerWeight::Proj => "proj.weight"@,
        }
    }

    pub fn name(self) -> (r: &'static str)
        ensures
            r@ == self.name_of(),
    {
        match self {
            LayerWeight::AttnQ => "attn_q.weight",
            LayerWeight::AttnK => "attn_k.weight",
            LayerWeight::AttnV => "attn_v.weight",
            LayerWeight::AttnOutput => "attn_output.weight",
            LayerWeight::FfnGate => "ffn_gate.weight",
            LayerWeight::FfnUp => "ffn_up.weight",
            LayerWeight::FfnDown => "ffn_down.weight",
            LayerWeight::InpGate => "inp_gate.weight",
            LayerWeight::Proj => "proj.weight",
        }
    }
}

/// The name of a tensor of a layer.
pub open spec fn layer_name(layer: nat, name: Seq<char>) -> Seq<char> {
    "blk."@ + dec(layer) + "."@ + name
}

/// The name of a tensor of a layer.
pub fn layer_tensor(layer: usize, name: &str) -> (r: String)
    ensures
        r@ == layer_name(layer as nat, name@),
{
    String::from_str("blk.").concat(dec_usize(layer).as_str()).concat(".").concat(name)
}

/// A buffer of a model.
#[derive(Clone, Copy, Debug, PartialEq, Eq, Structural)]
pub enum Buf {
    X,
    X2,
    TmpQ,
    TmpK,
    TmpV,
    TmpO,
    /// Single-precision scratch of partitioned attention.
    TmpAttnMwg,
    TmpFf1,
    TmpFf2,
    TmpFf3,
    Logits,
    /// A token number: a decode step reads one of the two and writes the other.
    TokIdx { i: usize },
    /// The token numbers of a prefill chunk.
    ChunkTok,
    PleTok,
    /// The packed table of per-layer embeddings.
    PleEmbd,
    /// One of two rows on their way to the device.
    PleStage { i: usize },
    PleCtx,
    PleTmp,
    PleGate,
    PleU,
    PleProj,
    Meta { layer: usize },
    RopeSwa,
    RopeFull,
    KvK { layer: usize },
    KvV { layer: usize },
    TokenEmbd,
    OutputNorm,
    PleProjNorm,
    AttnNorm { layer: usize },
    QNorm { layer: usize },
    KNorm { layer: usize },
    PostAttnNorm { layer: usize },
    FfnNorm { layer: usize },
    PostFfwNorm { layer: usize },
    PostNorm { layer: usize },
    Weight { layer: usize, which: LayerWeight },
    PleModelProj,
    /// Half-precision scratch of `n` elements.
    Scratch { n: usize },
}

/// A buffer from a byte offset on.
#[derive(Clone, Copy, Debug, PartialEq, Eq, Structural)]
pub struct Place {
    pub buf: Buf,
    pub offset: u64,
}

/// A buffer from its start.
#[verifier::allow_in_spec]
pub fn start(buf: Buf) -> Place
    returns
        (Place { buf, offset: 0 }),
{
    Place { buf, offset: 0 }
}

/// A buffer from a byte offset on.
#[verifier::allow_in_spec]
pub fn at(buf: Buf, offset: u64) -> Place
    returns
        (Place { buf, offset }),
{
    Place { buf, offset }
}

} // verus!
