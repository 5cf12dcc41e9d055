use ember::{argmax, Rng, ZERO_SEED_STATE};

#[test]
fn xorshift_sequence() {
    let mut r = Rng::new(1);
    assert_eq!(r.next_u64(), 0x40822041);
    assert_eq!(r.next_u64(), 0x100041060c011441);
    assert_eq!(r.next_u64(), 0x9b1e842f6e862629);
}

#[test]
fn zero_seed_is_remapped() {
    let mut a = Rng::new(0);
    let mut b = Rng::new(ZERO_SEED_STATE);
    assert_eq!(a.next_u64(), 0xdc1b77ae0bf34dad);
    assert_eq!(b.next_u64(), 0xdc1b77ae0bf34dad);
}

#[test]
fn state_never_zero() {
    let mut r = Rng::new(0x8000_0000_0000_0000);
    for _ in 0..10000 {
        assert_ne!(r.next_u64(), 0);
    }
}

#[test]
fn argmax_first_of_ties() {
    assert_eq!(argmax(&[Some(1), Some(5), Some(3), Some(5)]), 1);
    assert_eq!(argmax(&[Some(-7), Some(-2), Some(-9)]), 1);
}

#[test]
fn argmax_skips_absent_keys() {
    assert_eq!(argmax(&[None, Some(-4), None, Some(-5)]), 1);
    assert_eq!(argmax(&[None, None]), 0);
    assert_eq!(argmax(&[]), 0);
}

fn keys(logits: &[f32]) -> Vec<Option<i32>> {
    logits.iter().map(|v| ember::logit_key(v.to_bits())).collect()
}

#[test]
fn logit_keys_follow_float_order() {
    assert_eq!(ember::logit_key(0.0f32.to_bits()), Some(0));
    assert_eq!(ember::logit_key((-0.0f32).to_bits()), Some(0));
    assert_eq!(ember::logit_key(f32::NAN.to_bits()), None);
    assert_eq!(ember::logit_key(f32::NEG_INFINITY.to_bits()), None);
    assert_eq!(ember::logit_key(f32::INFINITY.to_bits()), Some(0x7f80_0000));
    assert_eq!(ember::logit_key(1.0f32.to_bits()), Some(0x3f80_0000));
    assert_eq!(ember::logit_key((-1.0f32).to_bits()), Some(-0x3f80_0000));
    let vals = [-3.5f32, -1.0, -1e-30, 0.0, 1e-30, 0.5, 2.0, f32::INFINITY];
    for w in vals.windows(2) {
        assert!(ember::logit_key(w[0].to_bits()) < ember::logit_key(w[1].to_bits()));
    }
}

#[test]
fn greedy_over_floats() {
    assert_eq!(argmax(&keys(&[f32::NAN, f32::NEG_INFINITY, 2.0, 3.0, 3.0])), 3);
    assert_eq!(argmax(&keys(&[f32::NAN, f32::NAN])), 0);
    assert_eq!(argmax(&keys(&[f32::NEG_INFINITY, -5.0])), 1);
    assert_eq!(argmax(&keys(&[-0.0, 0.0])), 0);
    assert_eq!(argmax(&keys(&[-2.0, -1.0, -3.0])), 1);
}

#[test]
fn draw_is_top_24_bits() {
    let mut a = Rng::new(1);
    let mut b = Rng::new(1);
    assert_eq!(a.next_u24() as u64, b.next_u64() >> 40);
    assert_eq!(a.next_u24() as u64, 0x100041060c011441u64 >> 40);
}
