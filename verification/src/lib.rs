//! `ember`: the integer and structural core of a CPU inference engine for
//! Qwen2.5-style decoder models, with its contracts proved by Verus.
//!
//! Floating-point values never appear here: wherever the engine keeps an `f32`
//! (cached keys and values, quantization scales, hyper-parameters such as the
//! RoPE base), this crate holds its IEEE-754 bit pattern as a `u32`, which the
//! numeric kernels turn back into a float with `f32::from_bits`.

mod attention;
mod chat;
mod config;
mod generate;
mod model;
mod quant;
mod sample;

pub use attention::{
    advances_since_clear, has_clear, last_stored, lemma_cursor_counts_advances, lemma_slots_hold_last_store, replay,
    replayable, CacheOp, lemma_cursor_moves_keep_buffers, lemma_store_keeps_cached_tokens, lemma_store_reads_back, overwrite, KvCache,
    KvCacheView,
};
pub use chat::{chatml, chatml_text};
pub use config::{Config, DEFAULT_RMS_NORM_EPS_BITS, DEFAULT_ROPE_THETA_BITS};
pub use generate::{
    after_all, feeds_one_token, lemma_decoder_follows_cache, lemma_emits_max_tokens, lemma_eos_stops, is_eos, lemma_decoder_positions, seed, seed_from_nanos, spec_is_eos, spec_seed_from_nanos, DecodeAction, Decoder,
    DecoderView, END_OF_TEXT, IM_END,
};
pub use model::{
    decimal, lemma_context_is_capped, layer_tensor_name, lemma_tensor_names, LayerTensor, layer_bytes, layers_bytes, LayerWeights, Linear, ModelWeights, data_end_fits, declared_header_len, header_data_end, try_read_archive, MAX_HEADER_LEN, archive_index, archive_tensors, decode_words16, decode_words32, le_words16, le_words32, new_cache, read_archive,
    spec_context_len, spec_tensor_words, tensor_words, ElementType, LoadError, TensorWords, MAX_CONTEXT,
};
pub use quant::{
    byte_value, lemma_named_scheme_widths, lemma_scheme_widths, high_nibble, lemma_codes_read_back, lemma_nibbles_round_trip, low_nibble, nibble_pair, signed_nibble,
    Quant, QuantBits, QuantMatrix,
};
pub use sample::{
    argmax, is_first_max, lemma_seeds_start_streams, lemma_logit_key_monotone, lemma_logit_key_signs, lemma_xorshift_nonzero, logit_key,
    seeded_state, spec_logit_key, xorshift, Rng, ZERO_SEED_STATE,
};
