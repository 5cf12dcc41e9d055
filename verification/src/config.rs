//! Model hyper-parameters of a Llama-style decoder (the Qwen2.5 family).

use vstd::prelude::*;

verus! {

/// The subset of a model's `config.json` that the inference path needs.
///
/// The two floating-point hyper-parameters are held as the bit patterns of
/// their `f32` values.
#[derive(Debug, Clone, Copy, PartialEq, Eq, Structural)]
pub struct Config {
    /// Model (embedding) dimension.
    pub hidden_size: usize,
    /// Number of stacked transformer blocks.
    pub num_hidden_layers: usize,
    /// Number of query heads.
    pub num_attention_heads: usize,
    /// Number of key/value heads (fewer than query heads means grouped-query attention).
    pub num_key_value_heads: usize,
    /// Hidden dimension of the SwiGLU feed-forward network.
    pub intermediate_size: usize,
    /// Token vocabulary size.
    pub vocab_size: usize,
    /// Context length the RoPE tables are built for.
    pub max_position_embeddings: usize,
    /// Bit pattern of the RoPE base frequency (θ) as an `f32`.
    pub rope_theta_bits: u32,
    /// Bit pattern of the RMSNorm epsilon as an `f32`.
    pub rms_norm_eps_bits: u32,
    /// Whether the LM head shares weights with the input embedding.
    pub tie_word_embeddings: bool,
}

/// Bit pattern of `1_000_000.0f32`, the RoPE base used when a config omits it.
pub const DEFAULT_ROPE_THETA_BITS: u32 = 0x4974_2400;

/// Bit pattern of `1e-6f32`, the RMSNorm epsilon used when a config omits it.
pub const DEFAULT_RMS_NORM_EPS_BITS: u32 = 0x3586_37bd;

impl Config {
    /// Width of one attention head: `hidden_size / num_attention_heads`.
    pub open spec fn spec_head_dim(self) -> int {
        self.hidden_size as int / self.num_attention_heads as int
    }

    /// Query heads per key/value head: `num_attention_heads / num_key_value_heads`.
    pub open spec fn spec_kv_group_size(self) -> int {
        self.num_attention_heads as int / self.num_key_value_heads as int
    }

    /// Width of the key (or value) projection: `num_key_value_heads * head_dim`.
    pub open spec fn spec_kv_dim(self) -> int {
        self.num_key_value_heads as int * self.spec_head_dim()
    }

    /// The head count is positive and the key/value width fits in a `usize`:
    /// what `kv_dim` needs to be computed.
    pub open spec fn has_kv_dim(self) -> bool {
        &&& self.num_attention_heads > 0
        &&& self.spec_kv_dim() <= usize::MAX
    }

    /// Dimension of a single attention head.
    pub fn head_dim(&self) -> (r: usize)
        requires
            self.num_attention_heads > 0,
        ensures
            r == self.spec_head_dim(),
    {
        self.hidden_size / self.num_attention_heads
    }

    /// How many query heads share each key/value head (the GQA group size).
    pub fn kv_group_size(&self) -> (r: usize)
        requires
            self.num_key_value_heads > 0,
        ensures
            r == self.spec_kv_group_size(),
    {
        self.num_attention_heads / self.num_key_value_heads
    }

    /// Combined width of the key (or value) projection:
    /// `num_key_value_heads * head_dim`.
    pub fn kv_dim(&self) -> (r: usize)
        requires
            self.has_kv_dim(),
        ensures
            r == self.spec_kv_dim(),
    {
        let hd = self.head_dim();
        self.num_key_value_heads * hd
    }

    /// The key/value head that query head `head` reads under grouped-query
    /// attention: `head / kv_group_size`. When the query heads divide evenly
    /// into groups, every query head maps to an existing key/value head.
    pub fn kv_head(&self, head: usize) -> (r: usize)
        requires
            self.num_key_value_heads > 0,
            self.spec_kv_group_size() > 0,
        ensures
            r == head as int / self.spec_kv_group_size(),
            self.num_attention_heads as int % self.num_key_value_heads as int == 0 && head < self.num_attention_heads
                ==> r < self.num_key_value_heads,
    {
        let g = self.kv_group_size();
        proof {
            if self.num_attention_heads as int % self.num_key_value_heads as int == 0 && head < self.num_attention_heads {
                lemma_group_head(head as int, self.num_attention_heads as int, self.num_key_value_heads as int, g as int);
            }
        }
        head / g
    }

    /// Where key/value head `kv_head` of token `pos` starts in a layer's cache
    /// stream: `pos * kv_dim + kv_head * head_dim`. Its `head_dim` entries end
    /// within the token's slot.
    pub fn kv_offset(&self, pos: usize, kv_head: usize) -> (r: usize)
        requires
            self.has_kv_dim(),
            kv_head < self.num_key_value_heads,
            (pos + 1) * self.spec_kv_dim() <= usize::MAX,
        ensures
            r == pos * self.spec_kv_dim() + kv_head * self.spec_head_dim(),
            r + self.spec_head_dim() <= (pos + 1) * self.spec_kv_dim(),
    {
        let kv_dim = self.kv_dim();
        let hd = self.head_dim();
        proof {
            lemma_head_in_slot(pos as int, kv_head as int, self.num_key_value_heads as int, hd as int);
        }
        pos * kv_dim + kv_head * hd
    }

    /// The Qwen2.5-0.5B-Instruct shape, usable without the real weights on disk.
    pub fn preset_qwen2_5_0_5b() -> (c: Self)
        ensures
            c.hidden_size == 896,
            c.num_hidden_layers == 24,
            c.num_attention_heads == 14,
            c.num_key_value_heads == 2,
            c.intermediate_size == 4864,
            c.vocab_size == 151936,
            c.max_position_embeddings == 32768,
            c.rope_theta_bits == DEFAULT_ROPE_THETA_BITS,
            c.rms_norm_eps_bits == DEFAULT_RMS_NORM_EPS_BITS,
            c.tie_word_embeddings,
            c.spec_head_dim() == 64,
            c.spec_kv_group_size() == 7,
            c.spec_kv_dim() == 128,
    {
        Config {
            hidden_size: 896,
            num_hidden_layers: 24,
            num_attention_heads: 14,
            num_key_value_heads: 2,
            intermediate_size: 4864,
            vocab_size: 151936,
            max_position_embeddings: 32768,
            rope_theta_bits: DEFAULT_ROPE_THETA_BITS,
            rms_norm_eps_bits: DEFAULT_RMS_NORM_EPS_BITS,
            tie_word_embeddings: true,
        }
    }
}

/// With `heads = group * kv_heads`, query head `head < heads` falls in group
/// `head / group < kv_heads`.
proof fn lemma_group_head(head: int, heads: int, kv_heads: int, group: int)
    requires
        0 <= head < heads,
        kv_heads > 0,
        group > 0,
        heads % kv_heads == 0,
        group == heads / kv_heads,
    ensures
        head / group < kv_heads,
{
    assert(heads == group * kv_heads) by (nonlinear_arith)
        requires
            kv_heads > 0,
            heads % kv_heads == 0,
            group == heads / kv_heads,
    ;
    assert(head / group < kv_heads) by (nonlinear_arith)
        requires
            0 <= head < heads,
            heads == group * kv_heads,
            group > 0,
    ;
}

/// Head `kv_head < kv_heads` of token `pos` lies within the token's slot of
/// `kv_heads * hd` entries.
proof fn lemma_head_in_slot(pos: int, kv_head: int, kv_heads: int, hd: int)
    requires
        0 <= pos,
        0 <= kv_head < kv_heads,
        0 <= hd,
    ensures
        0 <= pos * (kv_heads * hd),
        0 <= kv_head * hd,
        pos * (kv_heads * hd) + kv_head * hd + hd <= (pos + 1) * (kv_heads * hd),
        kv_head * hd + hd <= kv_heads * hd,
{
    assert(kv_head * hd + hd <= kv_heads * hd) by (nonlinear_arith)
        requires
            kv_head < kv_heads,
            0 <= hd,
    ;
    assert((pos + 1) * (kv_heads * hd) == pos * (kv_heads * hd) + kv_heads * hd) by (nonlinear_arith);
    assert(0 <= pos * (kv_heads * hd)) by (nonlinear_arith)
        requires
            0 <= pos,
            0 <= kv_heads,
            0 <= hd,
    ;
    assert(0 <= kv_head * hd) by (nonlinear_arith)
        requires
            0 <= kv_head,
            0 <= hd,
    ;
}

} // verus!
