use ember::{is_eos, seed, seed_from_nanos, DecodeAction, Decoder, END_OF_TEXT, IM_END};

#[test]
fn eos_ids() {
    assert!(is_eos(151643));
    assert!(is_eos(151645));
    assert!(!is_eos(151644));
    assert_eq!(END_OF_TEXT, 151643);
    assert_eq!(IM_END, 151645);
}

#[test]
fn decoder_feeds_tokens_after_prompt() {
    let mut d = Decoder::new(5, 3);
    assert!(d.wants_token());
    assert_eq!(d.step(10), DecodeAction::Emit { token: 10, pos: 5 });
    assert_eq!(d.step(11), DecodeAction::Emit { token: 11, pos: 6 });
    assert_eq!(d.step(12), DecodeAction::Emit { token: 12, pos: 7 });
    assert!(!d.wants_token());
    assert_eq!(d.generated(), 3);
}

#[test]
fn decoder_stops_on_eos() {
    let mut d = Decoder::new(2, 10);
    assert_eq!(d.step(7), DecodeAction::Emit { token: 7, pos: 2 });
    assert_eq!(d.step(IM_END), DecodeAction::Stop);
    assert!(!d.wants_token());
    assert_eq!(d.generated(), 1);
}

#[test]
fn decoder_with_no_budget() {
    let d = Decoder::new(4, 0);
    assert!(!d.wants_token());
    assert_eq!(d.generated(), 0);
}

#[test]
fn seed_from_clock_reading() {
    assert_eq!(seed_from_nanos(None), 0x1234_5678);
    assert_eq!(seed_from_nanos(Some(42)), 42);
    assert_eq!(seed_from_nanos(Some((1u128 << 64) + 7)), 7);
    let _ = seed();
}
