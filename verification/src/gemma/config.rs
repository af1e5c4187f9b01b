//! The dimensions of a model, and which layers keep keys and values of their own.

use vstd::prelude::*;


verus! {

/// What a model file says of the model, key by key. Floating-point values are bit patterns.
#[derive(Debug)]
pub struct GgufMeta {
    pub block_count: Option<u32>,
    pub embedding_length: Option<u32>,
    pub head_count: Option<u32>,
    pub head_count_kv: Option<u32>,
    pub key_length: Option<u32>,
    pub key_length_swa: Option<u32>,
    pub sliding_window: Option<u32>,
    pub shared_kv_layers: Option<u32>,
    pub rms_epsilon: Option<u32>,
    pub softcapping: Option<u32>,
    pub per_layer_input: Option<u32>,
    pub freq_base: Option<u32>,
    pub freq_base_swa: Option<u32>,
    pub feed_forward_list: Option<Vec<usize>>,
    pub feed_forward: Option<u32>,
    pub sliding_window_pattern: Option<Vec<bool>>,
    pub token_rows: Option<usize>,
}

/// The bit pattern of 1e-6.
pub const DEFAULT_EPS: u32 = 0x358637BD;

/// The bit pattern of 30.
pub const DEFAULT_SOFTCAP: u32 = 0x41F00000;

/// The bit pattern of 1e6.
pub const DEFAULT_THETA_FULL: u32 = 0x49742400;

/// The bit pattern of 1e4.
pub const DEFAULT_THETA_SWA: u32 = 0x461C4000;

/// The bit pattern of 0.25.
pub const PARTIAL_ROTARY: u32 = 0x3E800000;

/// The dimensions of a model. Floating-point values are bit patterns.
#[derive(Clone, Debug)]
pub struct GemmaConfig {
    pub n_layers: usize,
    pub hidden: usize,
    pub n_heads: usize,
    pub n_kv: usize,
    pub head_dim_swa: usize,
    pub head_dim_full: usize,
    pub sliding_window: usize,
    pub shared_kv_layers: usize,
    pub ffn: Vec<usize>,
    pub swa_pattern: Vec<bool>,
    pub rms_eps: u32,
    pub softcap: u32,
    pub vocab: usize,
    pub ple_dim: usize,
    pub rope_theta_full: u32,
    pub rope_theta_swa: u32,
    pub partial_rotary: u32,
}

/// A value, or a default in its place.
pub open spec fn or_else<T>(v: Option<T>, d: T) -> T {
    match v {
        Some(x) => x,
        None => d,
    }
}

fn value_or(v: Option<u32>, d: u32) -> (r: u32)
    ensures
        r == or_else(v, d),
{
    match v {
        Some(x) => x,
        None => d,
    }
}

/// The widths of the feed-forward layers: a list with one for each layer, or one for all.
pub open spec fn ffn_of(list: Option<Seq<usize>>, one: Option<u32>, n_layers: nat) -> Seq<usize> {
    let all = |w: usize| Seq::new(n_layers, |i: int| w);
    match list {
        Some(l) => if l.len() == 1 {
            all(l[0])
        } else if l.len() == n_layers {
            l
        } else {
            all(6144)
        },
        None => all(or_else(one, 6144) as usize),
    }
}

/// The pattern where the file gives none: every sixth layer attends to all positions.
pub open spec fn default_pattern(n_layers: nat) -> Seq<bool> {
    Seq::new(n_layers, |i: int| (i + 1) % 6 != 0)
}

fn repeat_width(w: usize, n: usize) -> (r: Vec<usize>)
    ensures
        r@ == Seq::new(n as nat, |i: int| w),
{
    let mut v: Vec<usize> = Vec::new();
    let mut i: usize = 0;
    while i < n
        invariant
            i <= n,
            v@ == Seq::new(i as nat, |j: int| w),
        decreases n - i,
    {
        v.push(w);
        assert(v@ =~= Seq::new((i + 1) as nat, |j: int| w));
        i += 1;
    }
    v
}

fn copy_widths(l: &Vec<usize>) -> (r: Vec<usize>)
    ensures
        r@ == l@,
{
    let mut v: Vec<usize> = Vec::new();
    let mut i: usize = 0;
    while i < l.len()
        invariant
            i <= l@.len(),
            v@ == l@.take(i as int),
        decreases l@.len() - i,
    {
        v.push(l[i]);
        assert(v@ =~= l@.take(i + 1));
        i += 1;
    }
    assert(l@.take(l@.len() as int) =~= l@);
    v
}

pub open spec fn opt_seq<T>(v: Option<Vec<T>>) -> Option<Seq<T>> {
    match v {
        Some(x) => Some(x@),
        None => None,
    }
}

impl GemmaConfig {
    /// Reads the dimensions of a model. The number of layers must be there; the width and the
    /// number of heads are taken for granted.
    pub fn from_gguf(m: &GgufMeta) -> (r: Result<GemmaConfig, &'static str>)
        requires
            m.block_count is Some ==> m.embedding_length is Some && m.head_count is Some,
        ensures
            match r {
                Err(e) => m.block_count is None && e@ == "block_count"@,
                Ok(c) => {
                    &&& m.block_count == Some(c.n_layers as u32)
                    &&& m.embedding_length == Some(c.hidden as u32)
                    &&& m.head_count == Some(c.n_heads as u32)
                    &&& c.n_layers <= u32::MAX && c.hidden <= u32::MAX && c.n_heads <= u32::MAX
                    &&& c.n_kv == or_else(m.head_count_kv, 1)
                    &&& c.head_dim_full == or_else(m.key_length, 512)
                    &&& c.head_dim_swa == or_else(m.key_length_swa, 256)
                    &&& c.sliding_window == or_else(m.sliding_window, 512)
                    &&& c.shared_kv_layers == or_else(m.shared_kv_layers, 0)
                    &&& c.rms_eps == or_else(m.rms_epsilon, DEFAULT_EPS)
                    &&& c.softcap == or_else(m.softcapping, DEFAULT_SOFTCAP)
                    &&& c.ple_dim == or_else(m.per_layer_input, 256)
                    &&& c.rope_theta_full == or_else(m.freq_base, DEFAULT_THETA_FULL)
                    &&& c.rope_theta_swa == or_else(m.freq_base_swa, DEFAULT_THETA_SWA)
                    &&& c.partial_rotary == PARTIAL_ROTARY
                    &&& c.vocab == or_else(m.token_rows, 262144)
                    &&& c.ffn@ == ffn_of(
                        opt_seq(m.feed_forward_list),
                        m.feed_forward,
                        c.n_layers as nat,
                    )
                    &&& c.swa_pattern@ == (match m.sliding_window_pattern {
                        Some(p) => p@,
                        None => default_pattern(c.n_layers as nat),
                    })
                },
            },
    {
        let n_layers: usize = match m.block_count {
            Some(n) => n as usize,
            None => {
                return Err("block_count");
            },
        };
        let hidden: usize = match m.embedding_length {
            Some(n) => n as usize,
            None => 0,
        };
        let n_heads: usize = match m.head_count {
            Some(n) => n as usize,
            None => 0,
        };
        let ffn: Vec<usize> = match &m.feed_forward_list {
            Some(l) => if l.len() == 1 {
                repeat_width(l[0], n_layers)
            } else if l.len() == n_layers {
                copy_widths(l)
            } else {
                repeat_width(6144, n_layers)
            },
            None => repeat_width(value_or(m.feed_forward, 6144) as usize, n_layers),
        };
        assert(ffn@ =~= ffn_of(opt_seq(m.feed_forward_list), m.feed_forward, n_layers as nat));
        let swa_pattern: Vec<bool> = match &m.sliding_window_pattern {
            Some(p) => copy_flags(p),
            None => usual_pattern(n_layers),
        };
        Ok(
            GemmaConfig {
                n_layers,
                hidden,
                n_heads,
                n_kv: value_or(m.head_count_kv, 1) as usize,
                head_dim_swa: value_or(m.key_length_swa, 256) as usize,
                head_dim_full: value_or(m.key_length, 512) as usize,
                sliding_window: value_or(m.sliding_window, 512) as usize,
                shared_kv_layers: value_or(m.shared_kv_layers, 0) as usize,
                ffn,
                swa_pattern,
                rms_eps: value_or(m.rms_epsilon, DEFAULT_EPS),
                softcap: value_or(m.softcapping, DEFAULT_SOFTCAP),
                vocab: match m.token_rows {
                    Some(n) => n,
                    None => 262144,
                },
                ple_dim: value_or(m.per_layer_input, 256) as usize,
                rope_theta_full: value_or(m.freq_base, DEFAULT_THETA_FULL),
                rope_theta_swa: value_or(m.freq_base_swa, DEFAULT_THETA_SWA),
                partial_rotary: PARTIAL_ROTARY,
            },
        )
    }

    /// Whether a layer attends to a sliding window only.
    pub open spec fn swa(self, layer: int) -> bool {
        if 0 <= layer < self.swa_pattern@.len() {
            self.swa_pattern@[layer]
        } else {
            true
        }
    }

    pub fn is_swa(&self, layer: usize) -> (r: bool)
        ensures
            r == self.swa(layer as int),
    {
        if layer < self.swa_pattern.len() {
            self.swa_pattern[layer]
        } else {
            true
        }
    }

    /// The head size of a layer.
    pub open spec fn hd(self, layer: int) -> usize {
        if self.swa(layer) {
            self.head_dim_swa
        } else {
            self.head_dim_full
        }
    }

    pub fn head_dim(&self, layer: usize) -> (r: usize)
        ensures
            r == self.hd(layer as int),
    {
        if self.is_swa(layer) {
            self.head_dim_swa
        } else {
            self.head_dim_full
        }
    }

    /// The number of layers with keys and values of their own.
    pub open spec fn owners(self) -> int {
        if self.n_layers >= self.shared_kv_layers {
            self.n_layers - self.shared_kv_layers
        } else {
            0
        }
    }

    pub fn n_kv_owners(&self) -> (r: usize)
        ensures
            r == self.owners(),
    {
        if self.n_layers >= self.shared_kv_layers {
            self.n_layers - self.shared_kv_layers
        } else {
            0
        }
    }

    /// Whether a layer has keys and values of its own: all but the last ones do.
    pub fn owns_kv(&self, layer: usize) -> (r: bool)
        ensures
            r == (layer < self.owners()),
    {
        layer < self.n_kv_owners()
    }

    /// The last of the first `n` layers that has keys and values of its own and attends as `swa`
    /// says; the first layer where there is none.
    pub open spec fn last_owner(self, n: int, swa: bool) -> int
        decreases n,
    {
        if n <= 0 {
            0
        } else if n - 1 < self.owners() && self.swa(n - 1) == swa {
            n - 1
        } else {
            self.last_owner(n - 1, swa)
        }
    }

    /// The layer whose keys and values a layer reads.
    pub open spec fn source(self, layer: int) -> int {
        if layer < self.owners() {
            layer
        } else {
            self.last_owner(layer, self.swa(layer))
        }
    }

    pub fn kv_source(&self, layer: usize) -> (r: usize)
        ensures
            r == self.source(layer as int),
    {
        if self.owns_kv(layer) {
            return layer;
        }
        let want: bool = self.is_swa(layer);
        let mut i: usize = layer;
        while i > 0
            invariant
                i <= layer,
                layer >= self.owners(),
                want == self.swa(layer as int),
                self.last_owner(layer as int, want) == self.last_owner(i as int, want),
            decreases i,
        {
            i -= 1;
            if self.owns_kv(i) && self.is_swa(i) == want {
                return i;
            }
        }
        0
    }

    /// The width of the per-layer embeddings of all layers together.
    pub open spec fn ple(self) -> int {
        self.n_layers * self.ple_dim
    }

    pub fn ple_total(&self) -> (r: usize)
        requires
            self.ple() <= usize::MAX,
        ensures
            r == self.ple(),
    {
        self.n_layers * self.ple_dim
    }

    /// Every layer reads keys and values that some layer writes, and that layer attends as it
    /// does wherever such a layer stands before it.
    pub proof fn lemma_source_owns(self, layer: int)
        requires
            0 <= layer < self.n_layers,
            self.shared_kv_layers < self.n_layers,
        ensures
            0 <= self.source(layer) <= layer,
            self.source(layer) < self.owners(),
            (exists|i: int|
                0 <= i <= layer && i < self.owners() && #[trigger] self.swa(i) == self.swa(layer))
                ==> self.swa(self.source(layer)) == self.swa(layer),
            self.source(layer) == layer <==> layer < self.owners(),
    {
        if layer >= self.owners() {
            self.lemma_last_owner(layer, self.swa(layer));
        }
    }

    proof fn lemma_last_owner(self, n: int, swa: bool)
        requires
            0 <= n,
            0 < self.owners(),
        ensures
            0 <= self.last_owner(n, swa) < self.owners(),
            self.last_owner(n, swa) <= n,
            n > 0 ==> self.last_owner(n, swa) < n,
            (exists|i: int| 0 <= i < n && i < self.owners() && #[trigger] self.swa(i) == swa)
                ==> self.swa(self.last_owner(n, swa)) == swa,
        decreases n,
    {
        if n > 0 && !(n - 1 < self.owners() && self.swa(n - 1) == swa) {
            self.lemma_last_owner(n - 1, swa);
        }
    }
}

fn copy_flags(l: &Vec<bool>) -> (r: Vec<bool>)
    ensures
        r@ == l@,
{
    let mut v: Vec<bool> = Vec::new();
    let mut i: usize = 0;
    while i < l.len()
        invariant
            i <= l@.len(),
            v@ == l@.take(i as int),
        decreases l@.len() - i,
    {
        v.push(l[i]);
        assert(v@ =~= l@.take(i + 1));
        i += 1;
    }
    assert(l@.take(l@.len() as int) =~= l@);
    v
}

fn usual_pattern(n: usize) -> (r: Vec<bool>)
    ensures
        r@ == default_pattern(n as nat),
{
    let mut v: Vec<bool> = Vec::new();
    let mut i: usize = 0;
    while i < n
        invariant
            i <= n,
            v@ == default_pattern(i as nat),
        decreases n - i,
    {
        v.push((i % 6) != 5);
        assert(v@ =~= default_pattern((i + 1) as nat)) by {
            assert((i + 1) % 6 != 0 <==> i % 6 != 5);
        }
        i += 1;
    }
    v
}

} // verus!
