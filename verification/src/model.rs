//! The integer side of loading a model: sizing its key/value cache, and
//! reading the little-endian words of a named tensor out of a safetensors
//! archive.

use vstd::prelude::*;
use safetensors::tensor::Metadata;
use safetensors::{Dtype, SafeTensorError, SafeTensors};
use crate::attention::{KvCache, KvCacheView};
use crate::config::Config;
use crate::quant::QuantMatrix;

verus! {

/// Cap on the key/value cache's context, so that a huge
/// `max_position_embeddings` doesn't allocate gigabytes.
pub const MAX_CONTEXT: usize = 4096;

/// The context a cache for `config` has room for.
pub open spec fn spec_context_len(config: Config) -> int {
    if config.max_position_embeddings < MAX_CONTEXT {
        config.max_position_embeddings as int
    } else {
        MAX_CONTEXT as int
    }
}

/// The cache's context is `min(max_position_embeddings, MAX_CONTEXT)`: it
/// never exceeds the cap or the model's own context, equals the cap whenever
/// the model's context reaches it, and otherwise is the model's whole context.
pub proof fn lemma_context_is_capped(config: Config)
    ensures
        spec_context_len(config) <= MAX_CONTEXT,
        spec_context_len(config) <= config.max_position_embeddings,
        config.max_position_embeddings >= MAX_CONTEXT ==> spec_context_len(config) == MAX_CONTEXT,
        config.max_position_embeddings <= MAX_CONTEXT ==> spec_context_len(config) == config.max_position_embeddings,
{
}

/// A key/value cache sized for `config`'s layers and its (capped) context
/// length, with no token cached yet.
pub fn new_cache(config: &Config) -> (c: KvCache)
    requires
        config.has_kv_dim(),
        spec_context_len(*config) * config.spec_kv_dim() <= usize::MAX,
    ensures
        c@.valid(),
        c@.layers() == config.num_hidden_layers,
        c@.kv_dim == config.spec_kv_dim(),
        c@.max_seq == spec_context_len(*config),
        c@.max_seq <= MAX_CONTEXT,
        c@.max_seq <= config.max_position_embeddings,
        config.max_position_embeddings >= MAX_CONTEXT ==> c@.max_seq == MAX_CONTEXT,
        config.max_position_embeddings <= MAX_CONTEXT ==> c@.max_seq == config.max_position_embeddings,
        c@.len == 0,
        forall|l: int| 0 <= l < c@.layers() ==> #[trigger] c@.keys[l] == Seq::new((c@.max_seq * c@.kv_dim) as nat, |i: int| 0u32),
        forall|l: int| 0 <= l < c@.layers() ==> #[trigger] c@.values[l] == Seq::new((c@.max_seq * c@.kv_dim) as nat, |i: int| 0u32),
{
    let cap = if config.max_position_embeddings < MAX_CONTEXT {
        config.max_position_embeddings
    } else {
        MAX_CONTEXT
    };
    KvCache::new(config, cap)
}

/// A weight matrix: dense (the bit patterns of its `f32` entries, row-major)
/// or row-wise quantized.
pub enum Linear {
    /// Dense `[rows × cols]` weights.
    Dense { w: Vec<u32>, rows: usize, cols: usize },
    /// Quantized codes with per-row scales.
    Quantized(QuantMatrix),
}

impl Linear {
    /// Resident size in bytes: four per dense entry, or the packed codes
    /// plus four per scale.
    pub open spec fn spec_bytes(&self) -> int {
        match self {
            Linear::Dense { w, .. } => 4 * w@.len() as int,
            Linear::Quantized(q) => q.packed@.len() + 4 * q.scales@.len() as int,
        }
    }

    /// The resident size, or `None` when it does not fit in a `usize`.
    fn checked_bytes(&self) -> (r: Option<usize>)
        ensures
            match r {
                Some(n) => n == self.spec_bytes(),
                None => self.spec_bytes() > usize::MAX,
            },
    {
        match self {
            Linear::Dense { w, .. } => w.len().checked_mul(4),
            Linear::Quantized(q) => match q.scales.len().checked_mul(4) {
                Some(s) => q.packed.len().checked_add(s),
                None => None,
            },
        }
    }

    /// Resident size in bytes.
    pub fn bytes(&self) -> (r: usize)
        requires
            self.spec_bytes() <= usize::MAX,
        ensures
            r == self.spec_bytes(),
    {
        match self.checked_bytes() {
            Some(n) => n,
            None => 0,
        }
    }
}

/// The weights of one transformer block; vectors hold `f32` bit patterns.
pub struct LayerWeights {
    pub input_ln: Vec<u32>,
    pub q: Linear,
    pub q_b: Vec<u32>,
    pub k: Linear,
    pub k_b: Vec<u32>,
    pub v: Linear,
    pub v_b: Vec<u32>,
    pub o: Linear,
    pub post_ln: Vec<u32>,
    pub gate: Linear,
    pub up: Linear,
    pub down: Linear,
}

/// Every weight of a model; vectors hold `f32` bit patterns.
pub struct ModelWeights {
    /// Token embedding, doubling as the (tied) LM head.
    pub embed: Linear,
    pub layers: Vec<LayerWeights>,
    pub final_norm: Vec<u32>,
}

/// Resident bytes of one block: its seven matrices plus four per entry of
/// its norm weights and biases.
pub open spec fn layer_bytes(l: LayerWeights) -> int {
    l.q.spec_bytes() + l.k.spec_bytes() + l.v.spec_bytes() + l.o.spec_bytes() + l.gate.spec_bytes()
        + l.up.spec_bytes() + l.down.spec_bytes() + 4 * (l.input_ln@.len() + l.post_ln@.len() + l.q_b@.len()
        + l.k_b@.len() + l.v_b@.len())
}

/// Resident bytes of a sequence of blocks.
pub open spec fn layers_bytes(ls: Seq<LayerWeights>) -> int
    decreases ls.len(),
{
    if ls.len() == 0 {
        0
    } else {
        layers_bytes(ls.drop_last()) + layer_bytes(ls.last())
    }
}

/// A prefix of the blocks takes no more bytes than all of them.
proof fn lemma_layers_bytes_prefix(ls: Seq<LayerWeights>, i: int)
    requires
        0 <= i <= ls.len(),
    ensures
        0 <= layers_bytes(ls.take(i)) <= layers_bytes(ls),
    decreases ls.len(),
{
    if ls.len() > 0 {
        if i == ls.len() {
            assert(ls.take(i) =~= ls);
            lemma_layers_bytes_prefix(ls.drop_last(), ls.len() - 1);
            assert(ls.drop_last().take(ls.len() - 1) =~= ls.drop_last());
        } else {
            lemma_layers_bytes_prefix(ls.drop_last(), i);
            assert(ls.drop_last().take(i) =~= ls.take(i));
        }
    }
}

impl ModelWeights {
    /// Resident bytes of every weight: the embedding, four per final-norm
    /// entry, and every block.
    pub open spec fn spec_weight_bytes(&self) -> int {
        self.embed.spec_bytes() + 4 * self.final_norm@.len() + layers_bytes(self.layers@)
    }

    /// The resident size of every weight, or `None` when it does not fit in
    /// a `usize`.
    pub fn checked_weight_bytes(&self) -> (r: Option<usize>)
        ensures
            match r {
                Some(n) => n == self.spec_weight_bytes(),
                None => self.spec_weight_bytes() > usize::MAX,
            },
    {
        proof {
            lemma_layers_bytes_prefix(self.layers@, 0);
            lemma_layers_bytes_prefix(self.layers@, self.layers@.len() as int);
        }
        let e = match self.embed.checked_bytes() {
            Some(e) => e,
            None => return None,
        };
        let f = match self.final_norm.len().checked_mul(4) {
            Some(f) => f,
            None => return None,
        };
        let mut total = match e.checked_add(f) {
            Some(t) => t,
            None => return None,
        };
        assert(self.layers@.take(0) =~= Seq::<LayerWeights>::empty());
        let n = self.layers.len();
        for i in 0..n
            invariant
                n == self.layers@.len(),
                total == self.embed.spec_bytes() + 4 * self.final_norm@.len() + layers_bytes(self.layers@.take(i as int)),
        {
            let l = &self.layers[i];
            proof {
                assert(self.layers@.take(i + 1).drop_last() =~= self.layers@.take(i as int));
                lemma_layers_bytes_prefix(self.layers@, i as int);
            }
            let lb = match layer_checked_bytes(l) {
                Some(b) => b,
                None => {
                    proof {
                        lemma_layers_bytes_prefix(self.layers@, i + 1);
                    }
                    return None;
                },
            };
            total = match total.checked_add(lb) {
                Some(t) => t,
                None => {
                    proof {
                        lemma_layers_bytes_prefix(self.layers@, i + 1);
                    }
                    return None;
                },
            };
        }
        assert(self.layers@.take(n as int) =~= self.layers@);
        Some(total)
    }

    /// Approximate resident weight size in bytes (for the benchmark report).
    pub fn weight_bytes(&self) -> (r: usize)
        requires
            self.spec_weight_bytes() <= usize::MAX,
        ensures
            r == self.spec_weight_bytes(),
    {
        match self.checked_weight_bytes() {
            Some(n) => n,
            None => 0,
        }
    }
}

/// `a + b`, or `None` past `usize::MAX`.
fn add_or_none(a: Option<usize>, b: Option<usize>) -> (r: Option<usize>)
    ensures
        match (a, b) {
            (Some(x), Some(y)) => match r {
                Some(n) => n == x + y,
                None => x + y > usize::MAX,
            },
            _ => r is None,
        },
{
    match (a, b) {
        (Some(x), Some(y)) => x.checked_add(y),
        _ => None,
    }
}

/// The resident bytes of one block, or `None` when they do not fit.
fn layer_checked_bytes(l: &LayerWeights) -> (r: Option<usize>)
    ensures
        match r {
            Some(n) => n == layer_bytes(*l),
            None => layer_bytes(*l) > usize::MAX,
        },
{
    let mats = add_or_none(
        add_or_none(add_or_none(l.q.checked_bytes(), l.k.checked_bytes()), add_or_none(l.v.checked_bytes(), l.o.checked_bytes())),
        add_or_none(add_or_none(l.gate.checked_bytes(), l.up.checked_bytes()), l.down.checked_bytes()),
    );
    let lens = add_or_none(
        add_or_none(Some(l.input_ln.len()), Some(l.post_ln.len())),
        add_or_none(add_or_none(Some(l.q_b.len()), Some(l.k_b.len())), Some(l.v_b.len())),
    );
    let vecs = match lens {
        Some(n) => n.checked_mul(4),
        None => None,
    };
    add_or_none(mats, vecs)
}

/// A weight tensor of one transformer block.
#[derive(Debug, Clone, Copy, PartialEq, Eq, Structural)]
pub enum LayerTensor {
    /// The RMSNorm weight before attention.
    InputNorm,
    /// The query projection.
    QProj,
    /// The query projection's bias.
    QBias,
    /// The key projection.
    KProj,
    /// The key projection's bias.
    KBias,
    /// The value projection.
    VProj,
    /// The value projection's bias.
    VBias,
    /// The attention output projection.
    OProj,
    /// The RMSNorm weight before the feed-forward network.
    PostNorm,
    /// The SwiGLU gate projection.
    GateProj,
    /// The SwiGLU up projection.
    UpProj,
    /// The SwiGLU down projection.
    DownProj,
}

impl LayerTensor {
    /// The tensor's name within its block.
    pub open spec fn spec_suffix(self) -> Seq<char> {
        match self {
            LayerTensor::InputNorm => "input_layernorm.weight"@,
            LayerTensor::QProj => "self_attn.q_proj.weight"@,
            LayerTensor::QBias => "self_attn.q_proj.bias"@,
            LayerTensor::KProj => "self_attn.k_proj.weight"@,
            LayerTensor::KBias => "self_attn.k_proj.bias"@,
            LayerTensor::VProj => "self_attn.v_proj.weight"@,
            LayerTensor::VBias => "self_attn.v_proj.bias"@,
            LayerTensor::OProj => "self_attn.o_proj.weight"@,
            LayerTensor::PostNorm => "post_attention_layernorm.weight"@,
            LayerTensor::GateProj => "mlp.gate_proj.weight"@,
            LayerTensor::UpProj => "mlp.up_proj.weight"@,
            LayerTensor::DownProj => "mlp.down_proj.weight"@,
        }
    }

    /// The tensor's name within its block.
    pub fn suffix(self) -> (r: &'static str)
        ensures
            r@ == self.spec_suffix(),
    {
        match self {
            LayerTensor::InputNorm => "input_layernorm.weight",
            LayerTensor::QProj => "self_attn.q_proj.weight",
            LayerTensor::QBias => "self_attn.q_proj.bias",
            LayerTensor::KProj => "self_attn.k_proj.weight",
            LayerTensor::KBias => "self_attn.k_proj.bias",
            LayerTensor::VProj => "self_attn.v_proj.weight",
            LayerTensor::VBias => "self_attn.v_proj.bias",
            LayerTensor::OProj => "self_attn.o_proj.weight",
            LayerTensor::PostNorm => "post_attention_layernorm.weight",
            LayerTensor::GateProj => "mlp.gate_proj.weight",
            LayerTensor::UpProj => "mlp.up_proj.weight",
            LayerTensor::DownProj => "mlp.down_proj.weight",
        }
    }
}

/// Each block tensor is named by its Qwen2 checkpoint name: `UpProj` is read
/// from `mlp.up_proj.weight`, `GateProj` from `mlp.gate_proj.weight`, and so
/// on. The names tell the role of the tensor (attention or MLP, which
/// projection, weight or bias), and no two of the twelve are the same, so
/// no tensor is loaded in place of another.
pub proof fn lemma_tensor_names(a: LayerTensor, b: LayerTensor)
    ensures
        a != b ==> a.spec_suffix() != b.spec_suffix(),
        a.spec_suffix() == "mlp.up_proj.weight"@ <==> a == LayerTensor::UpProj,
        a.spec_suffix() == "mlp.gate_proj.weight"@ <==> a == LayerTensor::GateProj,
        a.spec_suffix() == "mlp.down_proj.weight"@ <==> a == LayerTensor::DownProj,
        a.spec_suffix() == "self_attn.q_proj.weight"@ <==> a == LayerTensor::QProj,
        a.spec_suffix() == "self_attn.k_proj.weight"@ <==> a == LayerTensor::KProj,
        a.spec_suffix() == "self_attn.v_proj.weight"@ <==> a == LayerTensor::VProj,
        a.spec_suffix() == "self_attn.o_proj.weight"@ <==> a == LayerTensor::OProj,
        a.spec_suffix() == "self_attn.q_proj.bias"@ <==> a == LayerTensor::QBias,
        a.spec_suffix() == "self_attn.k_proj.bias"@ <==> a == LayerTensor::KBias,
        a.spec_suffix() == "self_attn.v_proj.bias"@ <==> a == LayerTensor::VBias,
        a.spec_suffix() == "input_layernorm.weight"@ <==> a == LayerTensor::InputNorm,
        a.spec_suffix() == "post_attention_layernorm.weight"@ <==> a == LayerTensor::PostNorm,
{
    reveal_strlit("input_layernorm.weight");
    reveal_strlit("self_attn.q_proj.weight");
    reveal_strlit("self_attn.q_proj.bias");
    reveal_strlit("self_attn.k_proj.weight");
    reveal_strlit("self_attn.k_proj.bias");
    reveal_strlit("self_attn.v_proj.weight");
    reveal_strlit("self_attn.v_proj.bias");
    reveal_strlit("self_attn.o_proj.weight");
    reveal_strlit("post_attention_layernorm.weight");
    reveal_strlit("mlp.gate_proj.weight");
    reveal_strlit("mlp.up_proj.weight");
    reveal_strlit("mlp.down_proj.weight");
    assert("input_layernorm.weight"@.len() == 22);
    assert("self_attn.q_proj.weight"@.len() == 23);
    assert("self_attn.q_proj.weight"@[10] == 'q');
    assert("self_attn.q_proj.bias"@.len() == 21);
    assert("self_attn.q_proj.bias"@[10] == 'q');
    assert("self_attn.k_proj.weight"@.len() == 23);
    assert("self_attn.k_proj.weight"@[10] == 'k');
    assert("self_attn.k_proj.bias"@.len() == 21);
    assert("self_attn.k_proj.bias"@[10] == 'k');
    assert("self_attn.v_proj.weight"@.len() == 23);
    assert("self_attn.v_proj.weight"@[10] == 'v');
    assert("self_attn.v_proj.bias"@.len() == 21);
    assert("self_attn.v_proj.bias"@[10] == 'v');
    assert("self_attn.o_proj.weight"@.len() == 23);
    assert("self_attn.o_proj.weight"@[10] == 'o');
    assert("post_attention_layernorm.weight"@.len() == 31);
    assert("mlp.gate_proj.weight"@.len() == 20);
    assert("mlp.gate_proj.weight"@[4] == 'g');
    assert("mlp.up_proj.weight"@.len() == 18);
    assert("mlp.up_proj.weight"@[4] == 'u');
    assert("mlp.down_proj.weight"@.len() == 20);
    assert("mlp.down_proj.weight"@[4] == 'd');
}

/// The decimal digits of `n`, most significant first, without leading zeros.
pub open spec fn decimal(n: nat) -> Seq<char>
    decreases n,
{
    if n < 10 {
        seq![(48 + n) as char]
    } else {
        decimal(n / 10).push((48 + n % 10) as char)
    }
}

/// Append the digit `d` to `s`.
fn append_digit(s: &mut String, d: usize)
    requires
        d < 10,
    ensures
        final(s)@ == old(s)@.push((48 + d) as char),
{
    proof {
        reveal_strlit("0");
        reveal_strlit("1");
        reveal_strlit("2");
        reveal_strlit("3");
        reveal_strlit("4");
        reveal_strlit("5");
        reveal_strlit("6");
        reveal_strlit("7");
        reveal_strlit("8");
        reveal_strlit("9");
    }
    match d {
        0 => s.append("0"),
        1 => s.append("1"),
        2 => s.append("2"),
        3 => s.append("3"),
        4 => s.append("4"),
        5 => s.append("5"),
        6 => s.append("6"),
        7 => s.append("7"),
        8 => s.append("8"),
        _ => s.append("9"),
    }
}

/// Append the decimal digits of `n` to `s`.
fn append_decimal(s: &mut String, n: usize)
    ensures
        final(s)@ == old(s)@ + decimal(n as nat),
    decreases n,
{
    if n >= 10 {
        append_decimal(s, n / 10);
    }
    append_digit(s, n % 10);
    proof {
        assert(old(s)@ + decimal(n as nat) =~= if n >= 10 {
            (old(s)@ + decimal((n / 10) as nat)).push((48 + n % 10) as char)
        } else {
            old(s)@.push((48 + n % 10) as char)
        });
    }
}

/// The full name of tensor `t` of block `layer` in a Qwen2.5 checkpoint:
/// `model.layers.{layer}.{suffix}`.
pub fn layer_tensor_name(layer: usize, t: LayerTensor) -> (r: String)
    ensures
        r@ == "model.layers."@ + decimal(layer as nat) + "."@ + t.spec_suffix(),
{
    let mut s = String::from_str("model.layers.");
    append_decimal(&mut s, layer);
    s.append(".");
    s.append(t.suffix());
    s
}

impl Config {
    /// Width of the query projection: `num_attention_heads * head_dim`.
    pub open spec fn spec_q_dim(self) -> int {
        self.num_attention_heads * self.spec_head_dim()
    }

    /// The `(rows, cols)` shape block tensor `t` is loaded as when it is a
    /// matrix; `None` for the norm weights and biases, which are vectors.
    pub open spec fn spec_matrix_shape(self, t: LayerTensor) -> Option<(int, int)> {
        let h = self.hidden_size as int;
        let inter = self.intermediate_size as int;
        match t {
            LayerTensor::QProj => Some((self.spec_q_dim(), h)),
            LayerTensor::KProj => Some((self.spec_kv_dim(), h)),
            LayerTensor::VProj => Some((self.spec_kv_dim(), h)),
            LayerTensor::OProj => Some((h, self.spec_q_dim())),
            LayerTensor::GateProj => Some((inter, h)),
            LayerTensor::UpProj => Some((inter, h)),
            LayerTensor::DownProj => Some((h, inter)),
            _ => None,
        }
    }

    /// The `(rows, cols)` shape block tensor `t` is loaded as, for the seven
    /// projection matrices; `None` for the norm weights and biases.
    pub fn matrix_shape(&self, t: LayerTensor) -> (r: Option<(usize, usize)>)
        requires
            self.has_kv_dim(),
        ensures
            match (r, self.spec_matrix_shape(t)) {
                (Some((a, b)), Some((x, y))) => a == x && b == y,
                (None, None) => true,
                _ => false,
            },
    {
        let hd = self.head_dim();
        proof {
            assert(self.num_attention_heads * hd <= self.hidden_size) by (nonlinear_arith)
                requires
                    self.num_attention_heads > 0,
                    hd == self.hidden_size / self.num_attention_heads,
            ;
        }
        let q_dim = self.num_attention_heads * hd;
        let kv_dim = self.kv_dim();
        let h = self.hidden_size;
        let inter = self.intermediate_size;
        match t {
            LayerTensor::QProj => Some((q_dim, h)),
            LayerTensor::KProj => Some((kv_dim, h)),
            LayerTensor::VProj => Some((kv_dim, h)),
            LayerTensor::OProj => Some((h, q_dim)),
            LayerTensor::GateProj => Some((inter, h)),
            LayerTensor::UpProj => Some((inter, h)),
            LayerTensor::DownProj => Some((h, inter)),
            _ => None,
        }
    }
}

/// The element format of a stored tensor, as far as loading cares.
#[derive(Debug, PartialEq, Eq)]
pub enum ElementType {
    /// IEEE-754 single precision.
    F32,
    /// IEEE-754 half precision.
    F16,
    /// bfloat16.
    BF16,
    /// Any other format, by its safetensors name.
    Unsupported(String),
}

/// The elements of a tensor as the little-endian words of its format.
#[derive(Debug, PartialEq, Eq)]
pub enum TensorWords {
    /// Bit patterns of `f32` values.
    F32(Vec<u32>),
    /// Bit patterns of `f16` values.
    F16(Vec<u16>),
    /// Bit patterns of `bf16` values.
    BF16(Vec<u16>),
}

/// Why a tensor could not be read.
#[derive(Debug)]
pub enum LoadError {
    /// The archive has no tensor of that name.
    Missing(SafeTensorError),
    /// The tensor's element format is not one the engine reads.
    UnsupportedDtype(String),
}

#[verifier::external_type_specification]
#[verifier::external_body]
pub struct ExSafeTensors<'data>(SafeTensors<'data>);

#[verifier::external_type_specification]
#[verifier::external_body]
pub struct ExSafeTensorError(SafeTensorError);

/// The tensors a safetensors file holds, by name: each one's element format
/// and data bytes; `None` when the bytes are not a valid safetensors file.
pub uninterp spec fn archive_index(bytes: Seq<u8>) -> Option<Map<Seq<char>, (ElementType, Seq<u8>)>>;

/// The tensors a parsed archive holds, by name: each one's element format
/// and data bytes.
pub uninterp spec fn archive_tensors(st: SafeTensors) -> Map<Seq<char>, (ElementType, Seq<u8>)>;

/// The largest header a safetensors reader accepts, in bytes; a file that
/// declares a longer one is refused before its header is read.
pub const MAX_HEADER_LEN: u64 = 100_000_000;

/// The header length a safetensors file declares: its first eight bytes as
/// a little-endian integer.
pub open spec fn declared_header_len(bytes: Seq<u8>) -> int {
    bytes[0] + 0x100 * bytes[1] + 0x1_0000 * bytes[2] + 0x100_0000 * bytes[3] + 0x1_0000_0000 * bytes[4]
        + 0x100_0000_0000 * bytes[5] + 0x1_0000_0000_0000 * bytes[6] + 0x100_0000_0000_0000 * bytes[7]
}

/// The end of the tensor data that the header text `header` declares (the
/// last tensor's end offset, 0 without tensors); `None` when `header` is not
/// a valid safetensors header.
pub uninterp spec fn header_data_end(header: Seq<u8>) -> Option<usize>;

/// Whether the end of the whole file that `bytes` declares (eight bytes of
/// length, the header, then the tensor data) fits in a `usize`, or the file
/// is refused before that end is computed: too short to hold a header
/// length, a header longer than allowed or than the file, or a header that
/// does not parse.
pub open spec fn data_end_fits(bytes: Seq<u8>) -> bool {
    bytes.len() < 8 || {
        let n = declared_header_len(bytes);
        ||| n > MAX_HEADER_LEN
        ||| 8 + n > bytes.len()
        ||| match header_data_end(bytes.subrange(8, 8 + n)) {
            None => true,
            Some(end) => end + 8 + n <= usize::MAX,
        }
    }
}

/// Calls `serde_json::from_slice` to parse a safetensors header into
/// `safetensors::tensor::Metadata` (the parse `SafeTensors::deserialize`
/// makes of the header) and reads the end of its tensor data through
/// `Metadata::data_len`. Claims only that the result is a function of the
/// header bytes, named `header_data_end`.
#[verifier::external_body]
fn parse_header_data_end(header: &[u8]) -> (r: Option<usize>)
    ensures
        r == header_data_end(header@),
{
    match serde_json::from_slice::<Metadata>(header) {
        Ok(m) => Some(m.data_len()),
        Err(_) => None,
    }
}

/// Calls `safetensors::SafeTensors::deserialize`. Claims that it succeeds
/// exactly on the bytes of a valid safetensors file, and that the archive it
/// returns holds the tensors that file describes. It adds the declared data
/// end to the header's length unchecked, so a file whose declared end does
/// not fit in a `usize` is left out.
#[verifier::external_body]
fn deserialize_archive<'data>(bytes: &'data [u8]) -> (r: Result<SafeTensors<'data>, SafeTensorError>)
    requires
        data_end_fits(bytes@),
    ensures
        match r {
            Ok(st) => archive_index(bytes@) == Some(archive_tensors(st)),
            Err(_) => archive_index(bytes@) is None,
        },
{
    SafeTensors::deserialize(bytes)
}

/// Calls `safetensors::SafeTensors::tensor` and reads the view it returns
/// through `TensorView::dtype` and `TensorView::data`. Claims that it
/// succeeds exactly when the archive holds a tensor of that name, and then
/// gives that tensor's element format and data bytes.
#[verifier::external_body]
fn tensor_entry<'data>(st: &SafeTensors<'data>, name: &str) -> (r: Result<(ElementType, &'data [u8]), SafeTensorError>)
    ensures
        match r {
            Ok((t, d)) => archive_tensors(*st).contains_key(name@) && archive_tensors(*st)[name@] == (t, d@),
            Err(_) => !archive_tensors(*st).contains_key(name@),
        },
{
    let view = st.tensor(name)?;
    let t = match view.dtype() {
        Dtype::F32 => ElementType::F32,
        Dtype::F16 => ElementType::F16,
        Dtype::BF16 => ElementType::BF16,
        other => ElementType::Unsupported(format!("{other:?}")),
    };
    Ok((t, view.data()))
}

/// Parse the header of a safetensors file, leaving the tensor data in place.
pub fn read_archive<'data>(bytes: &'data [u8]) -> (r: Result<SafeTensors<'data>, SafeTensorError>)
    requires
        data_end_fits(bytes@),
    ensures
        r is Ok <==> archive_index(bytes@) is Some,
        r matches Ok(st) ==> archive_index(bytes@) == Some(archive_tensors(st)),
{
    deserialize_archive(bytes)
}

/// Parse the header of a safetensors file as [`read_archive`] does, after
/// checking that the file's declared end fits in a `usize`; `None` when it
/// does not.
pub fn try_read_archive<'data>(bytes: &'data [u8]) -> (r: Option<Result<SafeTensors<'data>, SafeTensorError>>)
    ensures
        r is None <==> !data_end_fits(bytes@),
        r matches Some(res) ==> (res is Ok <==> archive_index(bytes@) is Some),
        r matches Some(res) ==> (res matches Ok(st) ==> archive_index(bytes@) == Some(archive_tensors(st))),
{
    let len = bytes.len();
    if len < 8 {
        return Some(read_archive(bytes));
    }
    let n64: u64 = bytes[0] as u64 + 0x100 * (bytes[1] as u64) + 0x1_0000 * (bytes[2] as u64) + 0x100_0000 * (
    bytes[3] as u64) + 0x1_0000_0000 * (bytes[4] as u64) + 0x100_0000_0000 * (bytes[5] as u64) + 0x1_0000_0000_0000
        * (bytes[6] as u64) + 0x100_0000_0000_0000 * (bytes[7] as u64);
    assert(n64 == declared_header_len(bytes@));
    if n64 > MAX_HEADER_LEN {
        return Some(read_archive(bytes));
    }
    let n = n64 as usize;
    if n > len - 8 {
        return Some(read_archive(bytes));
    }
    let header = &bytes[8..8 + n];
    match parse_header_data_end(header) {
        None => Some(read_archive(bytes)),
        Some(end) => {
            if end <= usize::MAX - 8 - n {
                Some(read_archive(bytes))
            } else {
                None
            }
        },
    }
}

/// Little-endian 32-bit words of `bytes`, four bytes each; a trailing
/// remainder of fewer than four bytes is dropped.
pub open spec fn le_words32(bytes: Seq<u8>) -> Seq<u32> {
    Seq::new(
        bytes.len() / 4,
        |i: int|
            (bytes[4 * i] + 256 * bytes[4 * i + 1] + 65536 * bytes[4 * i + 2] + 16777216 * bytes[4 * i
                + 3]) as u32,
    )
}

/// Little-endian 16-bit words of `bytes`, two bytes each; a trailing odd
/// byte is dropped.
pub open spec fn le_words16(bytes: Seq<u8>) -> Seq<u16> {
    Seq::new(bytes.len() / 2, |i: int| (bytes[2 * i] + 256 * bytes[2 * i + 1]) as u16)
}

/// Split `bytes` into little-endian 32-bit words.
pub fn decode_words32(bytes: &[u8]) -> (w: Vec<u32>)
    ensures
        w@ == le_words32(bytes@),
{
    let len = bytes.len();
    let n = len / 4;
    let mut w: Vec<u32> = Vec::new();
    for i in 0..n
        invariant
            len == bytes@.len(),
            n == bytes@.len() / 4,
            w@ =~= le_words32(bytes@).take(i as int),
    {
        let b0 = bytes[4 * i] as u32;
        let b1 = bytes[4 * i + 1] as u32;
        let b2 = bytes[4 * i + 2] as u32;
        let b3 = bytes[4 * i + 3] as u32;
        w.push(b0 + 256 * b1 + 65536 * b2 + 16777216 * b3);
        assert(w@ =~= le_words32(bytes@).take(i + 1));
    }
    assert(le_words32(bytes@).take(n as int) =~= le_words32(bytes@));
    w
}

/// Split `bytes` into little-endian 16-bit words.
pub fn decode_words16(bytes: &[u8]) -> (w: Vec<u16>)
    ensures
        w@ == le_words16(bytes@),
{
    let len = bytes.len();
    let n = len / 2;
    let mut w: Vec<u16> = Vec::new();
    for i in 0..n
        invariant
            len == bytes@.len(),
            n == bytes@.len() / 2,
            w@ =~= le_words16(bytes@).take(i as int),
    {
        let b0 = bytes[2 * i] as u16;
        let b1 = bytes[2 * i + 1] as u16;
        w.push(b0 + 256 * b1);
        assert(w@ =~= le_words16(bytes@).take(i + 1));
    }
    assert(le_words16(bytes@).take(n as int) =~= le_words16(bytes@));
    w
}

/// What [`tensor_words`] gives for a tensor entry.
pub open spec fn spec_tensor_words(entry: (ElementType, Seq<u8>), r: Result<TensorWords, LoadError>) -> bool {
    match entry.0 {
        ElementType::F32 => r matches Ok(TensorWords::F32(w)) && w@ == le_words32(entry.1),
        ElementType::F16 => r matches Ok(TensorWords::F16(w)) && w@ == le_words16(entry.1),
        ElementType::BF16 => r matches Ok(TensorWords::BF16(w)) && w@ == le_words16(entry.1),
        ElementType::Unsupported(name) => r matches Err(LoadError::UnsupportedDtype(n)) && n == name,
    }
}

/// Look up the tensor `name` and split its bytes into the little-endian
/// words of its element format (`f32`, `f16` or `bf16` bit patterns).
pub fn tensor_words(st: &SafeTensors, name: &str) -> (r: Result<TensorWords, LoadError>)
    ensures
        !archive_tensors(*st).contains_key(name@) <==> r matches Err(LoadError::Missing(_)),
        archive_tensors(*st).contains_key(name@) ==> spec_tensor_words(archive_tensors(*st)[name@], r),
{
    match tensor_entry(st, name) {
        Err(e) => Err(LoadError::Missing(e)),
        Ok((t, data)) => match t {
            ElementType::F32 => Ok(TensorWords::F32(decode_words32(data))),
            ElementType::F16 => Ok(TensorWords::F16(decode_words16(data))),
            ElementType::BF16 => Ok(TensorWords::BF16(decode_words16(data))),
            ElementType::Unsupported(n) => Err(LoadError::UnsupportedDtype(n)),
        },
    }
}

} // verus!
