use ember::chatml;

#[test]
fn wraps_user_and_system() {
    let p = chatml("You are helpful.", "Hi");
    assert!(p.starts_with("<|im_start|>system\nYou are helpful.<|im_end|>"));
    assert!(p.contains("<|im_start|>user\nHi<|im_end|>"));
    assert!(p.ends_with("<|im_start|>assistant\n"));
}

#[test]
fn chatml_exact_layout() {
    let p = chatml("S", "U");
    assert_eq!(
        p,
        "<|im_start|>system\nS<|im_end|>\n<|im_start|>user\nU<|im_end|>\n<|im_start|>assistant\n"
    );
}

#[test]
fn chatml_empty_turns() {
    let p = chatml("", "");
    assert_eq!(p, "<|im_start|>system\n<|im_end|>\n<|im_start|>user\n<|im_end|>\n<|im_start|>assistant\n");
}
