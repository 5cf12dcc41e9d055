use ember::{Config, DEFAULT_RMS_NORM_EPS_BITS, DEFAULT_ROPE_THETA_BITS};

#[test]
fn preset_shape() {
    let c = Config::preset_qwen2_5_0_5b();
    assert_eq!(c.hidden_size, 896);
    assert_eq!(c.num_hidden_layers, 24);
    assert_eq!(c.num_attention_heads, 14);
    assert_eq!(c.num_key_value_heads, 2);
    assert_eq!(c.intermediate_size, 4864);
    assert_eq!(c.vocab_size, 151936);
    assert_eq!(c.max_position_embeddings, 32768);
    assert!(c.tie_word_embeddings);
    assert_eq!(f32::from_bits(c.rope_theta_bits), 1_000_000.0f32);
    assert_eq!(f32::from_bits(c.rms_norm_eps_bits), 1e-6f32);
}

#[test]
fn default_bits_are_the_documented_floats() {
    assert_eq!(DEFAULT_ROPE_THETA_BITS, 1_000_000.0f32.to_bits());
    assert_eq!(DEFAULT_RMS_NORM_EPS_BITS, 1e-6f32.to_bits());
}

#[test]
fn preset_derived_dims() {
    let c = Config::preset_qwen2_5_0_5b();
    assert_eq!(c.head_dim(), 64);
    assert_eq!(c.kv_group_size(), 7);
    assert_eq!(c.kv_dim(), 128);
}

#[test]
fn head_dim_rounds_down() {
    let mut c = Config::preset_qwen2_5_0_5b();
    c.hidden_size = 100;
    c.num_attention_heads = 3;
    c.num_key_value_heads = 1;
    assert_eq!(c.head_dim(), 33);
    assert_eq!(c.kv_group_size(), 3);
    assert_eq!(c.kv_dim(), 33);
}

#[test]
fn grouped_query_head_mapping() {
    let c = Config::preset_qwen2_5_0_5b();
    assert_eq!(c.kv_head(0), 0);
    assert_eq!(c.kv_head(6), 0);
    assert_eq!(c.kv_head(7), 1);
    assert_eq!(c.kv_head(13), 1);
    assert_eq!(c.kv_offset(0, 0), 0);
    assert_eq!(c.kv_offset(0, 1), 64);
    assert_eq!(c.kv_offset(3, 1), 3 * 128 + 64);
}
