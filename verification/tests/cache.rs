use ember::{Config, KvCache};

fn small_config() -> Config {
    let mut c = Config::preset_qwen2_5_0_5b();
    c.hidden_size = 8;
    c.num_hidden_layers = 2;
    c.num_attention_heads = 4;
    c.num_key_value_heads = 2;
    c
}

#[test]
fn new_cache_is_empty_and_zeroed() {
    let cfg = small_config();
    let cache = KvCache::new(&cfg, 3);
    assert!(cache.is_empty());
    assert_eq!(cache.len(), 0);
    assert_eq!(cache.keys(0), &[0u32; 12][..]);
    assert_eq!(cache.values(1), &[0u32; 12][..]);
}

#[test]
fn store_reads_back_at_cursor() {
    let cfg = small_config();
    let mut cache = KvCache::new(&cfg, 3);
    cache.store(0, &[1, 2, 3, 4], &[5, 6, 7, 8]);
    cache.store(1, &[9, 9, 9, 9], &[7, 7, 7, 7]);
    cache.advance();
    cache.store(0, &[11, 12, 13, 14], &[15, 16, 17, 18]);
    cache.advance();
    assert_eq!(cache.len(), 2);
    assert_eq!(&cache.keys(0)[..8], &[1, 2, 3, 4, 11, 12, 13, 14]);
    assert_eq!(&cache.values(0)[..8], &[5, 6, 7, 8, 15, 16, 17, 18]);
    assert_eq!(&cache.keys(1)[..8], &[9, 9, 9, 9, 0, 0, 0, 0]);
    assert_eq!(&cache.values(1)[..4], &[7, 7, 7, 7]);
    assert_eq!(&cache.keys(0)[8..], &[0, 0, 0, 0]);
}

#[test]
fn floats_round_trip_through_bits() {
    let cfg = small_config();
    let mut cache = KvCache::new(&cfg, 1);
    let k: Vec<u32> = [1.5f32, -0.0, f32::INFINITY, 3.25].iter().map(|v| v.to_bits()).collect();
    let v: Vec<u32> = [0.1f32, 0.2, 0.3, 0.4].iter().map(|v| v.to_bits()).collect();
    cache.store(1, &k, &v);
    let back: Vec<f32> = cache.keys(1).iter().map(|&b| f32::from_bits(b)).collect();
    assert_eq!(back, vec![1.5f32, -0.0, f32::INFINITY, 3.25]);
    assert_eq!(f32::from_bits(cache.values(1)[2]), 0.3f32);
}

#[test]
fn clear_keeps_buffers() {
    let cfg = small_config();
    let mut cache = KvCache::new(&cfg, 2);
    cache.store(0, &[1, 2, 3, 4], &[5, 6, 7, 8]);
    cache.advance();
    cache.clear();
    assert!(cache.is_empty());
    assert_eq!(&cache.keys(0)[..4], &[1, 2, 3, 4]);
    cache.store(0, &[9, 9, 9, 9], &[0, 0, 0, 0]);
    assert_eq!(&cache.keys(0)[..4], &[9, 9, 9, 9]);
}

#[test]
fn model_cache_is_capped() {
    let cfg = Config::preset_qwen2_5_0_5b();
    let cache = ember::new_cache(&cfg);
    assert_eq!(cache.keys(0).len(), ember::MAX_CONTEXT * 128);
    let mut small = small_config();
    small.max_position_embeddings = 5;
    let cache = ember::new_cache(&small);
    assert_eq!(cache.keys(1).len(), 5 * 4);
}

#[test]
fn cursor_counts_advances_since_clear() {
    let cfg = small_config();
    let mut cache = KvCache::new(&cfg, 4);
    cache.advance();
    cache.advance();
    cache.store(0, &[1, 1, 1, 1], &[2, 2, 2, 2]);
    assert_eq!(cache.len(), 2);
    cache.clear();
    cache.advance();
    assert_eq!(cache.len(), 1);
    assert_eq!(cache.capacity(), 4);
    // the slot stored before the clear still holds its key
    assert_eq!(&cache.keys(0)[8..12], &[1, 1, 1, 1]);
    cache.store(0, &[3, 3, 3, 3], &[4, 4, 4, 4]);
    assert_eq!(&cache.keys(0)[4..8], &[3, 3, 3, 3]);
    assert_eq!(&cache.keys(0)[8..12], &[1, 1, 1, 1]);
}

#[test]
fn cache_shape_getters() {
    let cfg = small_config();
    let cache = KvCache::new(&cfg, 3);
    assert_eq!(cache.kv_dim(), 4);
    assert_eq!(cache.num_layers(), 2);
}
